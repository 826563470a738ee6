//! The minimal interface auditor: which editor panels are drawn with real
//! content and which only as placeholders.
use vstd::prelude::*;
use crate::text::{nat_text, push_nat, push_str, string_of};

verus! {

pub open spec fn names_view(v: Seq<String>) -> Seq<Seq<char>> {
    v.map_values(|s: String| s@)
}

/// One line `   - <item>` per item.
pub open spec fn bullets(items: Seq<Seq<char>>) -> Seq<char>
    decreases items.len(),
{
    if items.len() == 0 {
        seq![]
    } else {
        bullets(items.drop_last()) + "   - "@ + items.last() + "\n"@
    }
}

/// Appends one line `   - <item>` per item.
pub fn push_bullets(out: &mut Vec<char>, items: &Vec<String>)
    ensures
        final(out)@ == old(out)@ + bullets(names_view(items@)),
{
    let ghost start = out@;
    let ghost all = names_view(items@);
    let mut i: usize = 0;
    while i < items.len()
        invariant
            i <= items@.len(),
            all == names_view(items@),
            out@ == start + bullets(all.subrange(0, i as int)),
        decreases items@.len() - i,
    {
        push_str(out, "   - ");
        push_str(out, items[i].as_str());
        push_str(out, "\n");
        assert(all.subrange(0, i + 1).drop_last() =~= all.subrange(0, i as int));
        assert(all.subrange(0, i + 1).last() == items@[i as int]@);
        assert(out@ =~= start + bullets(all.subrange(0, i + 1)));
        i = i + 1;
    }
    assert(all.subrange(0, i as int) =~= all);
}

/// What the editor shows, as far as the audit reads it.
#[derive(Clone, Copy, Debug, PartialEq, Eq, Structural)]
pub struct EditorPanels {
    pub show_shader_browser: bool,
    pub has_shaders: bool,
    pub show_parameter_panel: bool,
    pub has_selected_shader: bool,
    pub has_shader_parameters: bool,
    pub show_code_editor: bool,
    pub has_code: bool,
    pub show_preview: bool,
    pub show_node_studio: bool,
    pub show_timeline: bool,
    pub show_audio_panel: bool,
}

/// The panels an audit records, in order, each with whether it has real
/// content. The menu bar always has; the preview, node editor, timeline
/// and audio panels are placeholders whenever shown.
pub open spec fn audited_panels(p: EditorPanels) -> Seq<(Seq<char>, bool)> {
    seq![("Menu Bar"@, true)] + shown_record(p.show_shader_browser, "Shader Browser"@, p.has_shaders)
        + shown_record(
        p.show_parameter_panel,
        "Parameter Panel"@,
        p.has_selected_shader && p.has_shader_parameters,
    ) + shown_record(p.show_code_editor, "Code Editor"@, p.has_code) + shown_record(
        p.show_preview,
        "Preview Panel"@,
        false,
    ) + shown_record(p.show_node_studio, "Node Editor"@, false) + shown_record(
        p.show_timeline,
        "Timeline"@,
        false,
    ) + shown_record(p.show_audio_panel, "Audio Panel"@, false)
}

/// The record of a panel when it is shown; nothing when it is not.
pub open spec fn shown_record(shown: bool, name: Seq<char>, has: bool) -> Seq<(Seq<char>, bool)> {
    if shown {
        seq![(name, has)]
    } else {
        seq![]
    }
}

pub open spec fn names_of(rs: Seq<(Seq<char>, bool)>) -> Seq<Seq<char>> {
    rs.map_values(|r: (Seq<char>, bool)| r.0)
}

/// The names of the records with (`with_content`) or without real content.
pub open spec fn names_with(rs: Seq<(Seq<char>, bool)>, with_content: bool) -> Seq<Seq<char>>
    decreases rs.len(),
{
    if rs.len() == 0 {
        seq![]
    } else if rs.last().1 == with_content {
        names_with(rs.drop_last(), with_content).push(rs.last().0)
    } else {
        names_with(rs.drop_last(), with_content)
    }
}

/// The audit report: counts, then the working and the placeholder panels.
pub open spec fn minimal_report(found: nat, working: Seq<Seq<char>>, placeholder: Seq<Seq<char>>) -> Seq<
    char,
> {
    "\n==========  UI AUDIT REPORT (F12)  ==========\n"@ + "Total panels found: "@ + nat_text(found)
        + "\n"@ + "Working panels: "@ + nat_text(working.len()) + "  |  Placeholder panels: "@
        + nat_text(placeholder.len()) + "\n\n"@ + (if working.len() > 0 {
        "✅ WORKING PANELS:\n"@ + bullets(working)
    } else {
        seq![]
    }) + (if placeholder.len() > 0 {
        "\n❌ PLACEHOLDER PANELS:\n"@ + bullets(placeholder)
    } else {
        seq![]
    }) + "===============================================\n\n"@
}

/// Panels recorded since the last clearing: all of them, and split by
/// whether they have real content.
pub struct MinimalUiAuditor {
    pub enabled: bool,
    pub panels_found: Vec<String>,
    pub working_panels: Vec<String>,
    pub placeholder_panels: Vec<String>,
}

impl MinimalUiAuditor {
    /// The records behind the three lists: every panel found, each with
    /// whether it has real content.
    pub open spec fn records_match(&self, rs: Seq<(Seq<char>, bool)>) -> bool {
        &&& names_view(self.panels_found@) == names_of(rs)
        &&& names_view(self.working_panels@) == names_with(rs, true)
        &&& names_view(self.placeholder_panels@) == names_with(rs, false)
    }

    /// Enabled, with nothing recorded.
    pub fn new() -> (a: Self)
        ensures
            a.enabled,
            a.records_match(seq![]),
    {
        let a = MinimalUiAuditor {
            enabled: true,
            panels_found: Vec::new(),
            working_panels: Vec::new(),
            placeholder_panels: Vec::new(),
        };
        assert(names_view(a.panels_found@) =~= names_of(seq![]));
        assert(names_view(a.working_panels@) =~= seq![]);
        assert(names_view(a.placeholder_panels@) =~= seq![]);
        a
    }

    /// Records a panel among those found, and among the working or the
    /// placeholder panels.
    pub fn record_panel(&mut self, name: &str, has_content: bool)
        ensures
            final(self).enabled == old(self).enabled,
            names_view(final(self).panels_found@) == names_view(old(self).panels_found@).push(name@),
            names_view(final(self).working_panels@) == if has_content {
                names_view(old(self).working_panels@).push(name@)
            } else {
                names_view(old(self).working_panels@)
            },
            names_view(final(self).placeholder_panels@) == if has_content {
                names_view(old(self).placeholder_panels@)
            } else {
                names_view(old(self).placeholder_panels@).push(name@)
            },
    {
        self.panels_found.push(string_of(crate::text::chars_of(name).as_slice()));
        if has_content {
            self.working_panels.push(string_of(crate::text::chars_of(name).as_slice()));
        } else {
            self.placeholder_panels.push(string_of(crate::text::chars_of(name).as_slice()));
        }
        assert(names_view(self.panels_found@) =~= names_view(old(self).panels_found@).push(name@));
        assert(names_view(self.working_panels@) =~= if has_content {
            names_view(old(self).working_panels@).push(name@)
        } else {
            names_view(old(self).working_panels@)
        });
        assert(names_view(self.placeholder_panels@) =~= if has_content {
            names_view(old(self).placeholder_panels@)
        } else {
            names_view(old(self).placeholder_panels@).push(name@)
        });
    }

    /// The report as it is printed.
    pub fn report_text(&self) -> (s: String)
        ensures
            s@ == minimal_report(
                self.panels_found@.len(),
                names_view(self.working_panels@),
                names_view(self.placeholder_panels@),
            ),
    {
        let mut out: Vec<char> = Vec::new();
        push_str(&mut out, "\n==========  UI AUDIT REPORT (F12)  ==========\n");
        push_str(&mut out, "Total panels found: ");
        push_nat(&mut out, self.panels_found.len() as u128);
        push_str(&mut out, "\n");
        push_str(&mut out, "Working panels: ");
        push_nat(&mut out, self.working_panels.len() as u128);
        push_str(&mut out, "  |  Placeholder panels: ");
        push_nat(&mut out, self.placeholder_panels.len() as u128);
        push_str(&mut out, "\n\n");
        let ghost head = out@;
        if self.working_panels.len() > 0 {
            push_str(&mut out, "✅ WORKING PANELS:\n");
            push_bullets(&mut out, &self.working_panels);
        }
        let ghost mid = out@;
        if self.placeholder_panels.len() > 0 {
            push_str(&mut out, "\n❌ PLACEHOLDER PANELS:\n");
            push_bullets(&mut out, &self.placeholder_panels);
        }
        let ghost tail = out@;
        push_str(&mut out, "===============================================\n\n");
        assert(out@ =~= minimal_report(
            self.panels_found@.len(),
            names_view(self.working_panels@),
            names_view(self.placeholder_panels@),
        ));
        string_of(out.as_slice())
    }

    /// Forgets every panel recorded.
    pub fn clear(&mut self)
        ensures
            final(self).enabled == old(self).enabled,
            final(self).records_match(seq![]),
    {
        self.panels_found.clear();
        self.working_panels.clear();
        self.placeholder_panels.clear();
        assert(names_view(self.panels_found@) =~= names_of(seq![]));
        assert(names_view(self.working_panels@) =~= seq![]);
        assert(names_view(self.placeholder_panels@) =~= seq![]);
    }

    fn record_shown(&mut self, shown: bool, name: &str, has: bool, Ghost(rs): Ghost<Seq<(Seq<char>, bool)>>)
        requires
            old(self).records_match(rs),
        ensures
            final(self).enabled == old(self).enabled,
            final(self).records_match(rs + shown_record(shown, name@, has)),
    {
        if shown {
            self.record_panel(name, has);
            proof {
                lemma_record_step(rs, name@, has);
                assert(rs + shown_record(shown, name@, has) =~= rs.push((name@, has)));
            }
        } else {
            assert(rs + shown_record(shown, name@, has) =~= rs);
        }
    }

    /// Audits the editor's panels afresh: clears what was recorded, then
    /// records each panel shown, with whether it has real content.
    pub fn ui_audit_system(&mut self, panels: &EditorPanels)
        ensures
            final(self).enabled == old(self).enabled,
            final(self).records_match(audited_panels(*panels)),
    {
        self.clear();
        let ghost r0: Seq<(Seq<char>, bool)> = seq![];
        self.record_shown(true, "Menu Bar", true, Ghost(r0));
        let ghost r1 = r0 + shown_record(true, "Menu Bar"@, true);
        assert(r1 =~= seq![("Menu Bar"@, true)]);
        self.record_shown(panels.show_shader_browser, "Shader Browser", panels.has_shaders, Ghost(r1));
        let ghost r2 = r1 + shown_record(panels.show_shader_browser, "Shader Browser"@, panels.has_shaders);
        let has = panels.has_selected_shader && panels.has_shader_parameters;
        self.record_shown(panels.show_parameter_panel, "Parameter Panel", has, Ghost(r2));
        let ghost r3 = r2 + shown_record(panels.show_parameter_panel, "Parameter Panel"@, has);
        self.record_shown(panels.show_code_editor, "Code Editor", panels.has_code, Ghost(r3));
        let ghost r4 = r3 + shown_record(panels.show_code_editor, "Code Editor"@, panels.has_code);
        self.record_shown(panels.show_preview, "Preview Panel", false, Ghost(r4));
        let ghost r5 = r4 + shown_record(panels.show_preview, "Preview Panel"@, false);
        self.record_shown(panels.show_node_studio, "Node Editor", false, Ghost(r5));
        let ghost r6 = r5 + shown_record(panels.show_node_studio, "Node Editor"@, false);
        self.record_shown(panels.show_timeline, "Timeline", false, Ghost(r6));
        let ghost r7 = r6 + shown_record(panels.show_timeline, "Timeline"@, false);
        self.record_shown(panels.show_audio_panel, "Audio Panel", false, Ghost(r7));
    }
}

/// Recording one more panel extends each list by it where it belongs.
pub proof fn lemma_record_step(rs: Seq<(Seq<char>, bool)>, name: Seq<char>, has: bool)
    ensures
        names_of(rs.push((name, has))) == names_of(rs).push(name),
        names_with(rs.push((name, has)), true) == if has {
            names_with(rs, true).push(name)
        } else {
            names_with(rs, true)
        },
        names_with(rs.push((name, has)), false) == if has {
            names_with(rs, false)
        } else {
            names_with(rs, false).push(name)
        },
{
    let rs2 = rs.push((name, has));
    assert(rs2.drop_last() =~= rs);
    assert(names_of(rs2) =~= names_of(rs).push(name));
}

impl Default for MinimalUiAuditor {
    /// Disabled, with nothing recorded.
    fn default() -> (a: Self)
        ensures
            !a.enabled,
            a.records_match(seq![]),
    {
        let a = MinimalUiAuditor {
            enabled: false,
            panels_found: Vec::new(),
            working_panels: Vec::new(),
            placeholder_panels: Vec::new(),
        };
        assert(names_view(a.panels_found@) =~= names_of(seq![]));
        assert(names_view(a.working_panels@) =~= seq![]);
        assert(names_view(a.placeholder_panels@) =~= seq![]);
        a
    }
}

/// Every panel recorded is either working or a placeholder: the number
/// found is the sum of the two.
pub proof fn lemma_panels_split(rs: Seq<(Seq<char>, bool)>)
    ensures
        names_of(rs).len() == names_with(rs, true).len() + names_with(rs, false).len(),
    decreases rs.len(),
{
    if rs.len() > 0 {
        lemma_panels_split(rs.drop_last());
    }
}

} // verus!
