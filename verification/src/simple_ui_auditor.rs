//! The simple interface auditor: which panels drew real content and why
//! others are placeholders, a rolling log of recent events, and pointer
//! statistics, gathered into a report.
use vstd::prelude::*;
use crate::text::{chars_of, eq_chars, nat_text, push_nat, push_str, string_of};

verus! {

/// Pointer statistics (the pointer's position is not kept here).
#[derive(Clone, Debug)]
pub struct InputStats {
    pub any_button_hovered: bool,
    pub any_button_clicked: bool,
    pub interactions: usize,
}

impl Default for InputStats {
    /// Nothing hovered or clicked, no interactions.
    fn default() -> (s: Self)
        ensures
            !s.any_button_hovered,
            !s.any_button_clicked,
            s.interactions == 0,
    {
        InputStats { any_button_hovered: false, any_button_clicked: false, interactions: 0 }
    }
}

/// What is known of one panel.
#[derive(Clone, Debug)]
pub struct PanelInfo {
    pub has_real_content: bool,
    pub widget_count: usize,
    pub placeholder_reasons: Vec<String>,
}

impl Default for PanelInfo {
    /// No real content, no widgets, no reasons.
    fn default() -> (p: Self)
        ensures
            info_view(p) == (false, 0usize, Seq::<Seq<char>>::empty()),
    {
        let p = PanelInfo { has_real_content: false, widget_count: 0, placeholder_reasons: Vec::new() };
        assert(strings_view(p.placeholder_reasons@) =~= Seq::<Seq<char>>::empty());
        p
    }
}

/// The pointer as the interface saw it this frame; the position of a click
/// is given as it is written in the event log.
#[derive(Clone, Debug)]
pub struct PointerSnapshot {
    pub any_down: bool,
    pub primary_clicked: bool,
    pub interact_pos: String,
    pub secondary_clicked: bool,
}

/// The audit as it is saved.
#[derive(Clone, Debug)]
pub struct AuditReport {
    pub timestamp: u64,
    pub panel_count: usize,
    pub panels: Vec<(String, PanelInfo)>,
    pub events: Vec<String>,
    pub input_stats: InputStats,
}

pub open spec fn opt_string_view(o: Option<String>) -> Option<Seq<char>> {
    match o {
        Some(s) => Some(s@),
        None => None,
    }
}

pub open spec fn strings_view(v: Seq<String>) -> Seq<Seq<char>> {
    v.map_values(|s: String| s@)
}

pub open spec fn info_view(i: PanelInfo) -> (bool, usize, Seq<Seq<char>>) {
    (i.has_real_content, i.widget_count, strings_view(i.placeholder_reasons@))
}

pub open spec fn panels_view(v: Seq<(String, PanelInfo)>) -> Seq<(Seq<char>, (bool, usize, Seq<Seq<char>>))> {
    v.map_values(|e: (String, PanelInfo)| (e.0@, info_view(e.1)))
}

/// The position of the panel with this name.
pub open spec fn panel_index(ps: Seq<(Seq<char>, (bool, usize, Seq<Seq<char>>))>, name: Seq<char>) -> Option<int>
    decreases ps.len(),
{
    if ps.len() == 0 {
        None
    } else if ps.last().0 == name {
        Some(ps.len() - 1)
    } else {
        panel_index(ps.drop_last(), name)
    }
}

pub open spec fn no_repeats(v: Seq<Seq<char>>) -> bool {
    forall|i: int, j: int| 0 <= i < j < v.len() ==> v[i] != v[j]
}

/// Panel names are unique, and so are the reasons kept for each panel.
pub open spec fn panels_wf(ps: Seq<(Seq<char>, (bool, usize, Seq<Seq<char>>))>) -> bool {
    &&& forall|i: int, j: int| 0 <= i < j < ps.len() ==> ps[i].0 != ps[j].0
    &&& forall|i: int| 0 <= i < ps.len() ==> no_repeats(#[trigger] ps[i].1.2)
}

/// The reasons after a panel reported: a new reason is added at the end.
pub open spec fn with_reason(reasons: Seq<Seq<char>>, reason: Option<Seq<char>>) -> Seq<Seq<char>> {
    match reason {
        Some(r) => if reasons.contains(r) {
            reasons
        } else {
            reasons.push(r)
        },
        None => reasons,
    }
}

/// The panels after one reported, with whether it has real content and
/// why it may be a placeholder: a panel seen before is updated in place
/// (keeping its widget count), a new one is added at the end.
pub open spec fn after_report(
    ps: Seq<(Seq<char>, (bool, usize, Seq<Seq<char>>))>,
    name: Seq<char>,
    has_content: bool,
    reason: Option<Seq<char>>,
) -> Seq<(Seq<char>, (bool, usize, Seq<Seq<char>>))> {
    match panel_index(ps, name) {
        Some(k) => ps.update(k, (name, (has_content, ps[k].1.1, with_reason(ps[k].1.2, reason)))),
        None => ps.push((name, (has_content, 0usize, with_reason(seq![], reason)))),
    }
}

/// The most events the log keeps.
pub const EVENT_LOG_LEN: usize = 20;

/// A log entry: the time, in seconds modulo 10000, then the event.
pub open spec fn log_entry(event: Seq<char>, now_secs: u64) -> Seq<char> {
    "["@ + nat_text((now_secs % 10000) as nat) + "] "@ + event
}

/// The log after an event: when it is full, the oldest entry leaves.
pub open spec fn after_event(log: Seq<Seq<char>>, entry: Seq<char>) -> Seq<Seq<char>> {
    (if log.len() >= EVENT_LOG_LEN {
        log.drop_first()
    } else {
        log
    }).push(entry)
}

/// The events a pointer snapshot logs: a primary click with its position,
/// then a secondary click.
pub open spec fn pointer_events(p: PointerSnapshot) -> Seq<Seq<char>> {
    (if p.primary_clicked {
        seq!["Global Input: Left Click at "@ + p.interact_pos@]
    } else {
        seq![]
    }) + (if p.secondary_clicked {
        seq!["Global Input: Right Click"@]
    } else {
        seq![]
    })
}

/// Which panels showed real content, a rolling log of recent events, and
/// pointer statistics.
pub struct SimpleUiAuditor {
    pub enabled: bool,
    pub panels_found: Vec<(String, PanelInfo)>,
    pub events: Vec<String>,
    pub input_stats: InputStats,
}

impl Default for SimpleUiAuditor {
    /// Enabled, with nothing recorded.
    fn default() -> (a: Self)
        ensures
            a.enabled,
            a.wf(),
            panels_view(a.panels_found@) == Seq::<(Seq<char>, (bool, usize, Seq<Seq<char>>))>::empty(),
            a.events@.len() == 0,
            a.input_stats.interactions == 0,
            !a.input_stats.any_button_hovered,
            !a.input_stats.any_button_clicked,
    {
        let a = SimpleUiAuditor {
            enabled: true,
            panels_found: Vec::new(),
            events: Vec::new(),
            input_stats: InputStats::default(),
        };
        assert(panels_view(a.panels_found@) =~= Seq::<(Seq<char>, (bool, usize, Seq<Seq<char>>))>::empty());
        a
    }
}

impl SimpleUiAuditor {
    /// Unique panels and reasons; the log holds no more than its limit.
    pub open spec fn wf(&self) -> bool {
        &&& panels_wf(panels_view(self.panels_found@))
        &&& self.events@.len() <= EVENT_LOG_LEN
    }

    /// As `default`: enabled, with nothing recorded.
    pub fn new() -> (a: Self)
        ensures
            a.enabled,
            a.wf(),
            panels_view(a.panels_found@) == Seq::<(Seq<char>, (bool, usize, Seq<Seq<char>>))>::empty(),
            a.events@.len() == 0,
            a.input_stats.interactions == 0,
    {
        Self::default()
    }

    fn find_panel(&self, name: &[char]) -> (r: Option<usize>)
        ensures
            match r {
                Some(k) => panel_index(panels_view(self.panels_found@), name@) == Some(k as int) && k
                    < self.panels_found@.len(),
                None => panel_index(panels_view(self.panels_found@), name@) is None,
            },
    {
        let ghost ps = panels_view(self.panels_found@);
        let mut i = self.panels_found.len();
        assert(ps.subrange(0, i as int) =~= ps);
        while i > 0
            invariant
                i <= self.panels_found@.len(),
                ps == panels_view(self.panels_found@),
                panel_index(ps, name@) == panel_index(ps.subrange(0, i as int), name@),
            decreases i,
        {
            assert(ps.subrange(0, i as int).drop_last() =~= ps.subrange(0, i - 1));
            let key = chars_of(self.panels_found[i - 1].0.as_str());
            if eq_chars(key.as_slice(), name) {
                return Some(i - 1);
            }
            i = i - 1;
        }
        assert(ps.subrange(0, 0) =~= Seq::<(Seq<char>, (bool, usize, Seq<Seq<char>>))>::empty());
        None
    }

    /// Records that a panel was drawn, with or without real content, and
    /// why it may be a placeholder.
    pub fn record_panel(&mut self, name: &str, has_content: bool, reason: Option<String>)
        requires
            old(self).wf(),
        ensures
            final(self).wf(),
            panels_view(final(self).panels_found@) == after_report(
                panels_view(old(self).panels_found@),
                name@,
                has_content,
                opt_string_view(reason),
            ),
            final(self).events@ == old(self).events@,
            final(self).enabled == old(self).enabled,
            final(self).input_stats.interactions == old(self).input_stats.interactions,
            final(self).input_stats.any_button_hovered == old(self).input_stats.any_button_hovered,
            final(self).input_stats.any_button_clicked == old(self).input_stats.any_button_clicked,
    {
        let ghost ps = panels_view(self.panels_found@);
        let ghost rv = opt_string_view(reason);
        let key = chars_of(name);
        proof {
            lemma_panel_index(ps, name@);
        }
        match self.find_panel(key.as_slice()) {
            Some(k) => {
                let mut info = self.panels_found[k].1.clone();
                let ghost old_reasons = ps[k as int].1.2;
                let reasons = add_reason(&self.panels_found[k].1.placeholder_reasons, reason);
                let entry = (string_of(key.as_slice()), PanelInfo {
                    has_real_content: has_content,
                    widget_count: self.panels_found[k].1.widget_count,
                    placeholder_reasons: reasons,
                });
                self.panels_found.set(k, entry);
                assert(panels_view(self.panels_found@) =~= ps.update(
                    k as int,
                    (name@, (has_content, ps[k as int].1.1, with_reason(old_reasons, rv))),
                ));
                proof {
                    let ps2 = panels_view(self.panels_found@);
                    assert forall|i: int, j: int| 0 <= i < j < ps2.len() implies ps2[i].0 != ps2[j].0 by {
                        if i != k && j != k {
                            assert(ps[i].0 != ps[j].0);
                        } else if i == k {
                            assert(ps[i].0 != ps[j].0);
                        } else {
                            assert(ps[i].0 != ps[j].0);
                        }
                    }
                    assert forall|i: int| 0 <= i < ps2.len() implies no_repeats(#[trigger] ps2[i].1.2) by {
                        if i != k {
                            assert(no_repeats(ps[i].1.2));
                        }
                    }
                }
            },
            None => {
                let empty: Vec<String> = Vec::new();
                let reasons = add_reason(&empty, reason);
                let entry = (string_of(key.as_slice()), PanelInfo {
                    has_real_content: has_content,
                    widget_count: 0,
                    placeholder_reasons: reasons,
                });
                proof {
                    assert(strings_view(empty@) =~= Seq::<Seq<char>>::empty());
                }
                self.panels_found.push(entry);
                assert(panels_view(self.panels_found@) =~= ps.push(
                    (name@, (has_content, 0usize, with_reason(seq![], rv))),
                ));
                proof {
                    let ps2 = panels_view(self.panels_found@);
                    assert forall|i: int, j: int| 0 <= i < j < ps2.len() implies ps2[i].0 != ps2[j].0 by {
                        if j == ps.len() {
                            lemma_panel_index(ps, name@);
                        } else {
                            assert(ps[i].0 != ps[j].0);
                        }
                    }
                    assert forall|i: int| 0 <= i < ps2.len() implies no_repeats(#[trigger] ps2[i].1.2) by {
                        if i < ps.len() {
                            assert(no_repeats(ps[i].1.2));
                        }
                    }
                }
            },
        }
    }

    /// Adds a timestamped entry to the event log; when the log is full the
    /// oldest entry leaves.
    pub fn log_event(&mut self, event: String, now_secs: u64)
        requires
            old(self).wf(),
        ensures
            final(self).wf(),
            strings_view(final(self).events@) == after_event(
                strings_view(old(self).events@),
                log_entry(event@, now_secs),
            ),
            panels_view(final(self).panels_found@) == panels_view(old(self).panels_found@),
            final(self).enabled == old(self).enabled,
            final(self).input_stats.interactions == old(self).input_stats.interactions,
            final(self).input_stats.any_button_hovered == old(self).input_stats.any_button_hovered,
            final(self).input_stats.any_button_clicked == old(self).input_stats.any_button_clicked,
    {
        let mut entry: Vec<char> = Vec::new();
        push_str(&mut entry, "[");
        push_nat(&mut entry, (now_secs % 10000) as u128);
        push_str(&mut entry, "] ");
        push_str(&mut entry, event.as_str());
        let ghost before = strings_view(self.events@);
        if self.events.len() >= EVENT_LOG_LEN {
            self.events.remove(0);
        }
        self.events.push(string_of(entry.as_slice()));
        assert(strings_view(self.events@) =~= after_event(before, log_entry(event@, now_secs)));
    }

    /// Takes in the pointer's state: whether a button is held, and each
    /// click, which is logged (a primary click also counts as an
    /// interaction).
    pub fn update_input_stats(&mut self, pointer: &PointerSnapshot, now_secs: u64)
        requires
            old(self).wf(),
            pointer.primary_clicked ==> old(self).input_stats.interactions < usize::MAX,
        ensures
            final(self).wf(),
            final(self).input_stats.any_button_hovered == pointer.any_down,
            final(self).input_stats.interactions == old(self).input_stats.interactions + if pointer.primary_clicked {
                1int
            } else {
                0int
            },
            final(self).input_stats.any_button_clicked == (old(self).input_stats.any_button_clicked
                || pointer.primary_clicked),
            strings_view(final(self).events@) == logged_all(
                strings_view(old(self).events@),
                pointer_events(*pointer),
                now_secs,
            ),
            panels_view(final(self).panels_found@) == panels_view(old(self).panels_found@),
            final(self).enabled == old(self).enabled,
    {
        self.input_stats.any_button_hovered = pointer.any_down;
        let ghost log0 = strings_view(self.events@);
        if pointer.primary_clicked {
            let mut m: Vec<char> = Vec::new();
            push_str(&mut m, "Global Input: Left Click at ");
            push_str(&mut m, pointer.interact_pos.as_str());
            self.log_event(string_of(m.as_slice()), now_secs);
            self.input_stats.interactions = self.input_stats.interactions + 1;
            self.input_stats.any_button_clicked = true;
        }
        let ghost log1 = strings_view(self.events@);
        if pointer.secondary_clicked {
            let m = string_of(chars_of("Global Input: Right Click").as_slice());
            self.log_event(m, now_secs);
        }
        proof {
            let first: Seq<Seq<char>> = if pointer.primary_clicked {
                seq!["Global Input: Left Click at "@ + pointer.interact_pos@]
            } else {
                seq![]
            };
            let second: Seq<Seq<char>> = if pointer.secondary_clicked {
                seq!["Global Input: Right Click"@]
            } else {
                seq![]
            };
            assert(pointer_events(*pointer) == first + second);
            lemma_logged_all_split(log0, first, second, now_secs);
            assert(logged_all(log0, Seq::<Seq<char>>::empty(), now_secs) == log0);
            assert(logged_all(log1, Seq::<Seq<char>>::empty(), now_secs) == log1);
            if pointer.primary_clicked {
                assert(first.drop_last() =~= Seq::<Seq<char>>::empty());
                assert(log1 == logged_all(log0, first, now_secs));
            } else {
                assert(first =~= Seq::<Seq<char>>::empty());
                assert(log1 == logged_all(log0, first, now_secs));
            }
            if pointer.secondary_clicked {
                assert(second.drop_last() =~= Seq::<Seq<char>>::empty());
                assert(strings_view(self.events@) == logged_all(log1, second, now_secs));
            } else {
                assert(second =~= Seq::<Seq<char>>::empty());
            }
        }
    }

    /// Forgets the panels; the log and the statistics stay.
    pub fn clear(&mut self)
        requires
            old(self).wf(),
        ensures
            final(self).wf(),
            panels_view(final(self).panels_found@) == Seq::<(Seq<char>, (bool, usize, Seq<Seq<char>>))>::empty(),
            final(self).events@ == old(self).events@,
            final(self).enabled == old(self).enabled,
            final(self).input_stats.interactions == old(self).input_stats.interactions,
    {
        self.panels_found.clear();
        assert(panels_view(self.panels_found@) =~= Seq::<(Seq<char>, (bool, usize, Seq<Seq<char>>))>::empty());
    }

    /// The report to save at the given time: the panels and their count,
    /// the event log and the pointer statistics.
    pub fn build_report(&self, timestamp: u64) -> (r: AuditReport)
        ensures
            r.timestamp == timestamp,
            r.panel_count == self.panels_found@.len(),
            panels_view(r.panels@) == panels_view(self.panels_found@),
            strings_view(r.events@) == strings_view(self.events@),
            r.input_stats.interactions == self.input_stats.interactions,
            r.input_stats.any_button_hovered == self.input_stats.any_button_hovered,
            r.input_stats.any_button_clicked == self.input_stats.any_button_clicked,
    {
        let mut panels: Vec<(String, PanelInfo)> = Vec::new();
        let mut i: usize = 0;
        while i < self.panels_found.len()
            invariant
                i <= self.panels_found@.len(),
                panels@.len() == i,
                forall|k: int|
                    0 <= k < i ==> (#[trigger] panels@[k]).0@ == self.panels_found@[k].0@ && info_view(
                        panels@[k].1,
                    ) == info_view(self.panels_found@[k].1),
            decreases self.panels_found@.len() - i,
        {
            let e = &self.panels_found[i];
            let reasons = copy_strings(&e.1.placeholder_reasons);
            let info = PanelInfo {
                has_real_content: e.1.has_real_content,
                widget_count: e.1.widget_count,
                placeholder_reasons: reasons,
            };
            let name = string_of(chars_of(e.0.as_str()).as_slice());
            panels.push((name, info));
            i = i + 1;
        }
        assert(panels_view(panels@) =~= panels_view(self.panels_found@));
        let events = copy_strings(&self.events);
        AuditReport {
            timestamp,
            panel_count: self.panels_found.len(),
            panels,
            events,
            input_stats: InputStats {
                any_button_hovered: self.input_stats.any_button_hovered,
                any_button_clicked: self.input_stats.any_button_clicked,
                interactions: self.input_stats.interactions,
            },
        }
    }
}

/// The log after each of the events, in order, at the same time.
pub open spec fn logged_all(log: Seq<Seq<char>>, events: Seq<Seq<char>>, now_secs: u64) -> Seq<Seq<char>>
    decreases events.len(),
{
    if events.len() == 0 {
        log
    } else {
        after_event(logged_all(log, events.drop_last(), now_secs), log_entry(events.last(), now_secs))
    }
}

proof fn lemma_logged_all_split(log: Seq<Seq<char>>, a: Seq<Seq<char>>, b: Seq<Seq<char>>, now_secs: u64)
    ensures
        logged_all(log, a + b, now_secs) == logged_all(logged_all(log, a, now_secs), b, now_secs),
    decreases b.len(),
{
    if b.len() == 0 {
        assert(a + b =~= a);
    } else {
        assert((a + b).drop_last() =~= a + b.drop_last());
        lemma_logged_all_split(log, a, b.drop_last(), now_secs);
    }
}

proof fn lemma_panel_index(ps: Seq<(Seq<char>, (bool, usize, Seq<Seq<char>>))>, name: Seq<char>)
    ensures
        panel_index(ps, name) matches Some(k) ==> 0 <= k < ps.len() && ps[k].0 == name,
        panel_index(ps, name) is None ==> forall|i: int| 0 <= i < ps.len() ==> ps[i].0 != name,
    decreases ps.len(),
{
    if ps.len() > 0 {
        lemma_panel_index(ps.drop_last(), name);
        if ps.last().0 != name {
            assert forall|i: int| 0 <= i < ps.len() - 1 implies ps[i] == ps.drop_last()[i] by {}
        }
    }
}

fn copy_strings(v: &Vec<String>) -> (r: Vec<String>)
    ensures
        strings_view(r@) == strings_view(v@),
{
    let mut r: Vec<String> = Vec::new();
    let mut i: usize = 0;
    while i < v.len()
        invariant
            i <= v@.len(),
            r@.len() == i,
            forall|k: int| 0 <= k < i ==> (#[trigger] r@[k])@ == v@[k]@,
        decreases v@.len() - i,
    {
        let c = string_of(chars_of(v[i].as_str()).as_slice());
        r.push(c);
        i = i + 1;
    }
    assert(strings_view(r@) =~= strings_view(v@));
    r
}

/// The reasons with a new one added at the end, unless it is there already.
fn add_reason(reasons: &Vec<String>, reason: Option<String>) -> (r: Vec<String>)
    requires
        no_repeats(strings_view(reasons@)),
    ensures
        no_repeats(strings_view(r@)),
        strings_view(r@) == with_reason(
            strings_view(reasons@),
            opt_string_view(reason),
        ),
{
    let mut r = copy_strings(reasons);
    match reason {
        None => r,
        Some(x) => {
            if has_string(reasons, &x) {
                r
            } else {
                r.push(x);
                assert(strings_view(r@) =~= strings_view(reasons@).push(x@));
                r
            }
        },
    }
}

/// Whether the strings include `x`.
fn has_string(v: &Vec<String>, x: &String) -> (b: bool)
    ensures
        b == strings_view(v@).contains(x@),
{
    let xc = chars_of(x.as_str());
    let ghost rs = strings_view(v@);
    let mut i: usize = 0;
    while i < v.len()
        invariant
            i <= v@.len(),
            rs == strings_view(v@),
            xc@ == x@,
            forall|k: int| 0 <= k < i ==> rs[k] != x@,
        decreases v@.len() - i,
    {
        let c = chars_of(v[i].as_str());
        if eq_chars(c.as_slice(), xc.as_slice()) {
            assert(rs[i as int] == x@);
            return true;
        }
        i = i + 1;
    }
    false
}

/// Reporting a panel a second time in the same way changes nothing more.
pub proof fn lemma_report_idempotent(
    ps: Seq<(Seq<char>, (bool, usize, Seq<Seq<char>>))>,
    name: Seq<char>,
    has_content: bool,
    reason: Option<Seq<char>>,
)
    requires
        panels_wf(ps),
    ensures
        after_report(after_report(ps, name, has_content, reason), name, has_content, reason) == after_report(
            ps,
            name,
            has_content,
            reason,
        ),
{
    let once = after_report(ps, name, has_content, reason);
    lemma_panel_index(ps, name);
    match panel_index(ps, name) {
        Some(k) => {
            lemma_panel_index(once, name);
            assert forall|i: int| 0 <= i < once.len() && i != k implies once[i].0 != name by {
                assert(ps[i].0 != ps[k].0);
            }
            lemma_index_unique(once, name, k);
            lemma_with_reason_idempotent(ps[k].1.2, reason);
            assert(once.update(k, (name, (has_content, once[k].1.1, with_reason(once[k].1.2, reason)))) =~= once);
        },
        None => {
            let j = ps.len() as int;
            assert(once[j].0 == name);
            assert forall|i: int| 0 <= i < once.len() && i != j implies once[i].0 != name by {}
            lemma_index_unique(once, name, j);
            lemma_with_reason_idempotent(seq![], reason);
            assert(once.update(j, (name, (has_content, once[j].1.1, with_reason(once[j].1.2, reason)))) =~= once);
        },
    }
}

proof fn lemma_with_reason_idempotent(reasons: Seq<Seq<char>>, reason: Option<Seq<char>>)
    ensures
        with_reason(with_reason(reasons, reason), reason) == with_reason(reasons, reason),
{
    if let Some(r) = reason {
        if !reasons.contains(r) {
            assert(reasons.push(r)[reasons.len() as int] == r);
        }
    }
}

proof fn lemma_index_unique(ps: Seq<(Seq<char>, (bool, usize, Seq<Seq<char>>))>, name: Seq<char>, k: int)
    requires
        0 <= k < ps.len(),
        ps[k].0 == name,
        forall|i: int| 0 <= i < ps.len() && i != k ==> ps[i].0 != name,
    ensures
        panel_index(ps, name) == Some(k),
    decreases ps.len(),
{
    if k < ps.len() - 1 {
        lemma_index_unique(ps.drop_last(), name, k);
    }
}

/// The event log never holds more than its limit, and its last entry is
/// the event just logged.
pub proof fn lemma_log_bounded(log: Seq<Seq<char>>, entry: Seq<char>)
    requires
        log.len() <= EVENT_LOG_LEN,
    ensures
        after_event(log, entry).len() <= EVENT_LOG_LEN,
        after_event(log, entry).last() == entry,
        log.len() < EVENT_LOG_LEN ==> after_event(log, entry) == log.push(entry),
{
}

} // verus!
