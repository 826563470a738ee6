//! The interface auditor that panels report to: each panel says whether it
//! drew real widgets, how many, and what placeholder hints it showed; the
//! audit report lists the working and the placeholder panels.
use vstd::prelude::*;
use crate::text::{chars_of, eq_chars, join_with, nat_text, push_nat, push_str, string_of};

verus! {

/// Whether the auditor is on, and whether a report was asked for this frame.
#[derive(Clone, Copy, Debug, PartialEq, Eq, Structural)]
pub struct UiAuditState {
    pub enabled: bool,
    pub trigger_this_frame: bool,
}

impl Default for UiAuditState {
    /// Off, with no report asked for.
    fn default() -> (s: Self)
        ensures
            !s.enabled,
            !s.trigger_this_frame,
    {
        UiAuditState { enabled: false, trigger_this_frame: false }
    }
}

/// What a panel reported after it was drawn.
#[derive(Clone, Debug, PartialEq, Eq, Hash)]
pub struct PanelAudit {
    pub name: &'static str,
    pub has_real_widgets: bool,
    pub widget_count: usize,
    pub placeholder_indicators: Vec<&'static str>,
}

pub open spec fn hints_view(v: Seq<&'static str>) -> Seq<Seq<char>> {
    v.map_values(|h: &'static str| h@)
}

/// A panel's report as the contracts see it.
pub open spec fn audit_view(a: PanelAudit) -> (Seq<char>, bool, usize, Seq<Seq<char>>) {
    (a.name@, a.has_real_widgets, a.widget_count, hints_view(a.placeholder_indicators@))
}

impl PanelAudit {
    /// A panel with no widgets and no hints yet.
    pub fn new(name: &'static str) -> (a: Self)
        ensures
            audit_view(a) == (name@, false, 0usize, Seq::<Seq<char>>::empty()),
    {
        let a = PanelAudit { name, has_real_widgets: false, widget_count: 0, placeholder_indicators: Vec::new() };
        assert(hints_view(a.placeholder_indicators@) =~= Seq::<Seq<char>>::empty());
        a
    }

    /// The panel drew a real widget.
    pub fn mark_real(&mut self)
        ensures
            audit_view(*final(self)) == (audit_view(*old(self)).0, true, old(self).widget_count, audit_view(
                *old(self),
            ).3),
    {
        self.has_real_widgets = true;
    }

    /// The panel showed a placeholder with this hint.
    pub fn add_placeholder(&mut self, hint: &'static str)
        ensures
            audit_view(*final(self)) == (
                audit_view(*old(self)).0,
                old(self).has_real_widgets,
                old(self).widget_count,
                audit_view(*old(self)).3.push(hint@),
            ),
    {
        self.placeholder_indicators.push(hint);
        assert(hints_view(self.placeholder_indicators@) =~= hints_view(
            old(self).placeholder_indicators@,
        ).push(hint@));
    }
}

/// A helper through which a panel reports while it is drawn.
pub struct PanelAuditor<'a> {
    pub audit: &'a mut PanelAudit,
}

impl<'a> PanelAuditor<'a> {
    /// The report being written.
    pub open spec fn audited(&self) -> PanelAudit {
        *self.target()
    }

    /// Where the report goes.
    pub open spec fn target(self) -> &'a mut PanelAudit {
        self.audit
    }

    /// Writes into the given report: what is written there last is what
    /// the report holds afterwards.
    pub fn new(audit: &'a mut PanelAudit) -> (p: Self)
        ensures
            p.audited() == *old(audit),
            *final(p.target()) == *final(audit),
    {
        PanelAuditor { audit }
    }

    /// A real widget was drawn: the panel is working and counts one more widget.
    pub fn real_widget(&mut self)
        requires
            old(self).audited().widget_count < usize::MAX,
        ensures
            audit_view(final(self).audited()) == (
                audit_view(old(self).audited()).0,
                true,
                (old(self).audited().widget_count + 1) as usize,
                audit_view(old(self).audited()).3,
            ),
            *final(final(self).target()) == *final(old(self).target()),
    {
        self.audit.mark_real();
        self.audit.widget_count += 1;
    }

    /// Only placeholder text was shown, with this hint.
    pub fn placeholder(&mut self, hint: &'static str)
        ensures
            audit_view(final(self).audited()) == (
                audit_view(old(self).audited()).0,
                old(self).audited().has_real_widgets,
                old(self).audited().widget_count,
                audit_view(old(self).audited()).3.push(hint@),
            ),
            *final(final(self).target()) == *final(old(self).target()),
    {
        self.audit.add_placeholder(hint);
    }
}


/// Whether two reports are the same in every field.
pub fn same_audit(a: &PanelAudit, b: &PanelAudit) -> (r: bool)
    ensures
        r == (audit_view(*a) == audit_view(*b)),
{
    let an = chars_of(a.name);
    let bn = chars_of(b.name);
    if !eq_chars(an.as_slice(), bn.as_slice()) || a.has_real_widgets != b.has_real_widgets
        || a.widget_count != b.widget_count || a.placeholder_indicators.len()
        != b.placeholder_indicators.len() {
        proof {
            if an@ != bn@ {
                assert(audit_view(*a).0 != audit_view(*b).0);
            }
            if a.placeholder_indicators@.len() != b.placeholder_indicators@.len() {
                assert(audit_view(*a).3.len() != audit_view(*b).3.len());
            }
        }
        return false;
    }
    let ghost ha = hints_view(a.placeholder_indicators@);
    let ghost hb = hints_view(b.placeholder_indicators@);
    let mut i: usize = 0;
    while i < a.placeholder_indicators.len()
        invariant
            i <= a.placeholder_indicators@.len(),
            a.placeholder_indicators@.len() == b.placeholder_indicators@.len(),
            ha == hints_view(a.placeholder_indicators@),
            hb == hints_view(b.placeholder_indicators@),
            forall|k: int| 0 <= k < i ==> ha[k] == hb[k],
        decreases a.placeholder_indicators@.len() - i,
    {
        let x = chars_of(a.placeholder_indicators[i]);
        let y = chars_of(b.placeholder_indicators[i]);
        if !eq_chars(x.as_slice(), y.as_slice()) {
            assert(ha[i as int] != hb[i as int]);
            return false;
        }
        i = i + 1;
    }
    assert(ha =~= hb);
    true
}

pub open spec fn audits_view(v: Seq<PanelAudit>) -> Seq<(Seq<char>, bool, usize, Seq<Seq<char>>)> {
    v.map_values(|a: PanelAudit| audit_view(a))
}

/// No report occurs twice.
pub open spec fn distinct_audits(v: Seq<(Seq<char>, bool, usize, Seq<Seq<char>>)>) -> bool {
    forall|i: int, j: int| 0 <= i < j < v.len() ==> v[i] != v[j]
}

/// The reports after one more: kept unless the same report is there.
pub open spec fn after_record(
    ps: Seq<(Seq<char>, bool, usize, Seq<Seq<char>>)>,
    v: (Seq<char>, bool, usize, Seq<Seq<char>>),
) -> Seq<(Seq<char>, bool, usize, Seq<Seq<char>>)> {
    if ps.contains(v) {
        ps
    } else {
        ps.push(v)
    }
}

/// Recording the same report a second time changes nothing, and recording
/// keeps the reports distinct.
pub proof fn lemma_record_idempotent(
    ps: Seq<(Seq<char>, bool, usize, Seq<Seq<char>>)>,
    v: (Seq<char>, bool, usize, Seq<Seq<char>>),
)
    requires
        distinct_audits(ps),
    ensures
        after_record(after_record(ps, v), v) == after_record(ps, v),
        distinct_audits(after_record(ps, v)),
        after_record(ps, v).contains(v),
{
    if !ps.contains(v) {
        assert(ps.push(v)[ps.len() as int] == v);
    }
}

/// The reports of one frame, each kept once.
pub struct UiAuditCollector {
    panels: Vec<PanelAudit>,
}

impl UiAuditCollector {
    /// The reports kept, in the order they first came.
    pub closed spec fn panels(&self) -> Seq<(Seq<char>, bool, usize, Seq<Seq<char>>)> {
        audits_view(self.panels@)
    }

    pub closed spec fn wf(&self) -> bool {
        distinct_audits(self.panels())
    }

    /// Forgets every report.
    pub fn clear(&mut self)
        ensures
            final(self).wf(),
            final(self).panels() == Seq::<(Seq<char>, bool, usize, Seq<Seq<char>>)>::empty(),
    {
        self.panels.clear();
        assert(self.panels() =~= Seq::<(Seq<char>, bool, usize, Seq<Seq<char>>)>::empty());
    }

    /// Keeps a report unless the same report is kept already.
    pub fn record_panel(&mut self, panel: PanelAudit)
        requires
            old(self).wf(),
        ensures
            final(self).wf(),
            final(self).panels() == after_record(old(self).panels(), audit_view(panel)),
    {
        let ghost before = self.panels();
        let mut i: usize = 0;
        while i < self.panels.len()
            invariant
                i <= self.panels@.len(),
                before == audits_view(self.panels@),
                distinct_audits(before),
                forall|k: int| 0 <= k < i ==> before[k] != audit_view(panel),
            decreases self.panels@.len() - i,
        {
            if same_audit(&self.panels[i], &panel) {
                assert(before[i as int] == audit_view(panel));
                return;
            }
            i = i + 1;
        }
        assert(!before.contains(audit_view(panel)));
        self.panels.push(panel);
        assert(self.panels() =~= before.push(audit_view(panel)));
    }
}

impl Default for UiAuditCollector {
    /// No reports.
    fn default() -> (c: Self)
        ensures
            c.wf(),
            c.panels() == Seq::<(Seq<char>, bool, usize, Seq<Seq<char>>)>::empty(),
    {
        let c = UiAuditCollector { panels: Vec::new() };
        assert(c.panels() =~= Seq::<(Seq<char>, bool, usize, Seq<Seq<char>>)>::empty());
        c
    }
}

/// What the auditor does on a frame.
#[derive(Clone, Copy, Debug, PartialEq, Eq, Structural)]
pub enum AuditAction {
    /// Print the audit report.
    PrintReport,
    /// Tell the user that the auditor is off.
    AskToEnable,
    /// Nothing this frame.
    Idle,
}

/// One frame of the auditor: a press of F12 asks for a report, which is
/// printed when the auditor is on; the request is then consumed.
pub fn ui_audit_system(audit_state: &mut UiAuditState, f12_just_pressed: bool) -> (a: AuditAction)
    ensures
        final(audit_state).enabled == old(audit_state).enabled,
        !final(audit_state).trigger_this_frame,
        a == if old(audit_state).trigger_this_frame || f12_just_pressed {
            if old(audit_state).enabled {
                AuditAction::PrintReport
            } else {
                AuditAction::AskToEnable
            }
        } else {
            AuditAction::Idle
        },
{
    if f12_just_pressed {
        audit_state.trigger_this_frame = true;
    }
    if audit_state.trigger_this_frame {
        audit_state.trigger_this_frame = false;
        if audit_state.enabled {
            AuditAction::PrintReport
        } else {
            AuditAction::AskToEnable
        }
    } else {
        AuditAction::Idle
    }
}


/// How `{:?}` writes a list of strings.
pub uninterp spec fn debug_listing(items: Seq<Seq<char>>) -> Seq<char>;

/// A character that `{:?}` writes as it is inside a quoted string.
pub open spec fn plain_char(c: char) -> bool {
    ' ' <= c <= '~' && c != '"' && c != '\\'
}

/// The strings, each in double quotes, separated by `, `, in square brackets.
pub open spec fn quoted_list(items: Seq<Seq<char>>) -> Seq<char> {
    "["@ + join_with(items.map_values(|t: Seq<char>| "\""@ + t + "\""@), ", "@) + "]"@
}

/// `format!("{:?}", hints)` on a list of strings. Claimed: the result is
/// the Debug listing of the hints (a function of their text alone); when
/// every character of every hint is printable ASCII other than a double
/// quote or a backslash, that listing is the hints quoted, separated by
/// `, `, in square brackets. Escapes of other characters are not stated.
#[verifier::external_body]
fn debug_hints(hints: &Vec<&'static str>) -> (r: String)
    ensures
        r@ == debug_listing(hints_view(hints@)),
        (forall|k: int, j: int|
            0 <= k < hints@.len() && 0 <= j < hints@[k]@.len() ==> plain_char(#[trigger] hints@[k]@[j]))
            ==> r@ == quoted_list(hints_view(hints@)),
{
    format!("{:?}", hints)
}

/// The lines for the working panels: name and widget count.
pub open spec fn working_lines(ps: Seq<(Seq<char>, bool, usize, Seq<Seq<char>>)>) -> Seq<char>
    decreases ps.len(),
{
    if ps.len() == 0 {
        seq![]
    } else {
        let p = ps.last();
        working_lines(ps.drop_last()) + if p.1 {
            "   - "@ + p.0 + "  ("@ + nat_text(p.2 as nat) + " widgets)\n"@
        } else {
            seq![]
        }
    }
}

/// The lines for the placeholder panels: name and hints.
pub open spec fn placeholder_lines(ps: Seq<(Seq<char>, bool, usize, Seq<Seq<char>>)>) -> Seq<char>
    decreases ps.len(),
{
    if ps.len() == 0 {
        seq![]
    } else {
        let p = ps.last();
        placeholder_lines(ps.drop_last()) + if p.1 {
            seq![]
        } else {
            "   - "@ + p.0 + "  hints: "@ + debug_listing(p.3) + "\n"@
        }
    }
}

/// How many reports have (`with_real`) or lack real widgets.
pub open spec fn count_real(ps: Seq<(Seq<char>, bool, usize, Seq<Seq<char>>)>, with_real: bool) -> nat
    decreases ps.len(),
{
    if ps.len() == 0 {
        0
    } else {
        count_real(ps.drop_last(), with_real) + if ps.last().1 == with_real {
            1nat
        } else {
            0nat
        }
    }
}

/// The audit report: counts, then the working panels with their widget
/// counts and the placeholder panels with their hints.
pub open spec fn audit_report(ps: Seq<(Seq<char>, bool, usize, Seq<Seq<char>>)>) -> Seq<char> {
    "\n==========  UI AUDIT REPORT (F12)  ==========\n"@ + "Total panels scanned: "@ + nat_text(ps.len())
        + "\n"@ + "Working panels: "@ + nat_text(count_real(ps, true)) + "  |  Placeholder panels: "@
        + nat_text(count_real(ps, false)) + "\n\n"@ + (if count_real(ps, true) > 0 {
        "✅ WORKING PANELS (have real widgets):\n"@ + working_lines(ps)
    } else {
        seq![]
    }) + (if count_real(ps, false) > 0 {
        "\n❌ PLACEHOLDER PANELS (only stub UI):\n"@ + placeholder_lines(ps)
    } else {
        seq![]
    }) + "===============================================\n\n"@
}

proof fn lemma_count_real_bound(ps: Seq<(Seq<char>, bool, usize, Seq<Seq<char>>)>, with_real: bool)
    ensures
        count_real(ps, with_real) <= ps.len(),
    decreases ps.len(),
{
    if ps.len() > 0 {
        lemma_count_real_bound(ps.drop_last(), with_real);
    }
}

impl UiAuditCollector {
    /// The audit report as it is printed, the reports in the order they came.
    pub fn report_text(&self) -> (s: String)
        ensures
            s@ == audit_report(self.panels()),
    {
        let ghost ps = self.panels();
        let mut working: usize = 0;
        let mut dummy: usize = 0;
        let mut work: Vec<char> = Vec::new();
        let mut stub: Vec<char> = Vec::new();
        let mut i: usize = 0;
        while i < self.panels.len()
            invariant
                i <= self.panels@.len(),
                ps == audits_view(self.panels@),
                working == count_real(ps.subrange(0, i as int), true),
                dummy == count_real(ps.subrange(0, i as int), false),
                work@ == working_lines(ps.subrange(0, i as int)),
                stub@ == placeholder_lines(ps.subrange(0, i as int)),
            decreases self.panels@.len() - i,
        {
            let p = &self.panels[i];
            proof {
                assert(ps.subrange(0, i + 1).drop_last() =~= ps.subrange(0, i as int));
                assert(ps.subrange(0, i + 1).last() == audit_view(*p));
                lemma_count_real_bound(ps.subrange(0, i as int), true);
                lemma_count_real_bound(ps.subrange(0, i as int), false);
            }
            if p.has_real_widgets {
                working = working + 1;
                let ghost w0 = work@;
                push_str(&mut work, "   - ");
                push_str(&mut work, p.name);
                push_str(&mut work, "  (");
                push_nat(&mut work, p.widget_count as u128);
                push_str(&mut work, " widgets)\n");
                assert(work@ =~= working_lines(ps.subrange(0, i + 1)));
                assert(stub@ =~= placeholder_lines(ps.subrange(0, i + 1)));
            } else {
                dummy = dummy + 1;
                let d = debug_hints(&p.placeholder_indicators);
                push_str(&mut stub, "   - ");
                push_str(&mut stub, p.name);
                push_str(&mut stub, "  hints: ");
                push_str(&mut stub, d.as_str());
                push_str(&mut stub, "\n");
                assert(stub@ =~= placeholder_lines(ps.subrange(0, i + 1)));
                assert(work@ =~= working_lines(ps.subrange(0, i + 1)));
            }
            i = i + 1;
        }
        assert(ps.subrange(0, i as int) =~= ps);
        let mut out: Vec<char> = Vec::new();
        push_str(&mut out, "\n==========  UI AUDIT REPORT (F12)  ==========\n");
        push_str(&mut out, "Total panels scanned: ");
        push_nat(&mut out, self.panels.len() as u128);
        push_str(&mut out, "\n");
        push_str(&mut out, "Working panels: ");
        push_nat(&mut out, working as u128);
        push_str(&mut out, "  |  Placeholder panels: ");
        push_nat(&mut out, dummy as u128);
        push_str(&mut out, "\n\n");
        if working > 0 {
            push_str(&mut out, "✅ WORKING PANELS (have real widgets):\n");
            crate::text::push_chars(&mut out, work.as_slice());
        }
        if dummy > 0 {
            push_str(&mut out, "\n❌ PLACEHOLDER PANELS (only stub UI):\n");
            crate::text::push_chars(&mut out, stub.as_slice());
        }
        push_str(&mut out, "===============================================\n\n");
        assert(out@ =~= audit_report(ps));
        string_of(out.as_slice())
    }
}

} // verus!
