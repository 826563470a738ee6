//! The shader parameters that the parameter panel offers: the uniforms that
//! WGSL text declares with `var<uniform>`, one per line.
use vstd::prelude::*;
use crate::text::{
    chars_of, contains, contains_str, find, find_exec, lemma_find, lines, lines_exec, string_of,
    sub_vec,
};

verus! {

#[derive(Clone, Copy, Debug, PartialEq, Eq, Structural)]
pub enum ParamType {
    Float,
    Vec2,
    Vec3,
    Vec4,
}

#[derive(Clone, Debug)]
pub struct ShaderParameter {
    pub name: String,
    pub param_type: ParamType,
}

/// Unicode's alphanumeric property (alphabetic or numeric), the test of
/// `char::is_alphanumeric`.
pub uninterp spec fn unicode_alphanumeric(c: char) -> bool;

/// An ASCII letter or digit.
pub open spec fn ascii_alphanumeric(c: char) -> bool {
    ('a' <= c <= 'z') || ('A' <= c <= 'Z') || ('0' <= c <= '9')
}

/// `char::is_alphanumeric`: whether the character is alphabetic or numeric
/// in Unicode's tables. Claimed: the result is that property of the
/// character, and for an ASCII character it holds exactly of letters and
/// digits.
#[verifier::external_body]
fn is_alphanumeric(c: char) -> (r: bool)
    ensures
        r == unicode_alphanumeric(c),
        (c as u32) < 128 ==> (r == ascii_alphanumeric(c)),
{
    c.is_alphanumeric()
}

/// A character that may stand in a parameter name.
pub open spec fn name_char(c: char) -> bool {
    unicode_alphanumeric(c) || c == '_'
}

/// The first position at or after `i` whose character is a name character
/// (`want`) or is not one (`!want`).
pub open spec fn first_from(s: Seq<char>, i: int, want: bool) -> Option<int>
    decreases s.len() - i,
{
    if i < 0 || i >= s.len() {
        None
    } else if name_char(s[i]) == want {
        Some(i)
    } else {
        first_from(s, i + 1, want)
    }
}

/// A line that can be read: where it declares a uniform, a character
/// follows the first `var<uniform>`, and that character is ASCII (the name
/// is looked for from the character after it).
pub open spec fn readable_line(l: Seq<char>) -> bool {
    match find(l, "var<uniform>"@) {
        Some(p) => p + 12 < l.len() && (l[p + 12] as u32) < 128,
        None => true,
    }
}

/// Every line of the text can be read.
pub open spec fn readable(code: Seq<char>) -> bool {
    forall|k: int| 0 <= k < lines(code).len() ==> readable_line(#[trigger] lines(code)[k])
}

/// The type of a declared parameter, from the first annotation the line
/// carries; a scalar when it carries none.
pub open spec fn param_type_of(l: Seq<char>) -> ParamType {
    if contains(l, ": f32"@) {
        ParamType::Float
    } else if contains(l, ": vec2"@) {
        ParamType::Vec2
    } else if contains(l, ": vec3"@) {
        ParamType::Vec3
    } else if contains(l, ": vec4"@) {
        ParamType::Vec4
    } else {
        ParamType::Float
    }
}

/// The parameter a line declares: after the first `var<uniform>` and the
/// character that follows it, the first run of name characters, provided
/// something other than a name character ends it.
pub open spec fn line_parameter(l: Seq<char>) -> Option<(Seq<char>, ParamType)> {
    match find(l, "var<uniform>"@) {
        None => None,
        Some(p) => {
            let rest = l.subrange(p + 13, l.len() as int);
            match first_from(rest, 0, true) {
                None => None,
                Some(a) => match first_from(rest, a, false) {
                    None => None,
                    Some(b) => Some((rest.subrange(a, b), param_type_of(l))),
                },
            }
        },
    }
}

/// The parameters declared by a sequence of lines, in order.
pub open spec fn declared_parameters(ls: Seq<Seq<char>>) -> Seq<(Seq<char>, ParamType)>
    decreases ls.len(),
{
    if ls.len() == 0 {
        seq![]
    } else {
        let prev = declared_parameters(ls.drop_last());
        match line_parameter(ls.last()) {
            Some(x) => prev.push(x),
            None => prev,
        }
    }
}

pub open spec fn params_view(ps: Seq<ShaderParameter>) -> Seq<(Seq<char>, ParamType)> {
    ps.map_values(|p: ShaderParameter| (p.name@, p.param_type))
}

fn first_from_exec(s: &[char], i: usize, want: bool) -> (r: Option<usize>)
    requires
        i <= s@.len(),
    ensures
        match r {
            Some(j) => first_from(s@, i as int, want) == Some(j as int),
            None => first_from(s@, i as int, want) is None,
        },
{
    let mut k = i;
    while k < s.len()
        invariant
            i <= k <= s@.len(),
            first_from(s@, i as int, want) == first_from(s@, k as int, want),
        decreases s@.len() - k,
    {
        let c = s[k];
        let w = is_alphanumeric(c) || c == '_';
        if w == want {
            return Some(k);
        }
        k = k + 1;
    }
    None
}

proof fn lemma_first_from(s: Seq<char>, i: int, want: bool)
    requires
        0 <= i,
    ensures
        first_from(s, i, want) matches Some(j) ==> i <= j < s.len() && name_char(s[j]) == want,
    decreases s.len() - i,
{
    if i < s.len() && name_char(s[i]) != want {
        lemma_first_from(s, i + 1, want);
    }
}

fn param_type_exec(l: &[char]) -> (t: ParamType)
    ensures
        t == param_type_of(l@),
{
    if contains_str(l, ": f32") {
        ParamType::Float
    } else if contains_str(l, ": vec2") {
        ParamType::Vec2
    } else if contains_str(l, ": vec3") {
        ParamType::Vec3
    } else if contains_str(l, ": vec4") {
        ParamType::Vec4
    } else {
        ParamType::Float
    }
}

/// The parameter one line declares, if any.
pub fn line_parameter_exec(l: &[char]) -> (r: Option<ShaderParameter>)
    requires
        readable_line(l@),
    ensures
        match r {
            Some(p) => line_parameter(l@) == Some((p.name@, p.param_type)),
            None => line_parameter(l@) is None,
        },
{
    let pat = chars_of("var<uniform>");
    proof {
        reveal_strlit("var<uniform>");
        lemma_find(l@, pat@);
    }
    match find_exec(l, pat.as_slice()) {
        None => None,
        Some(p) => {
            assert(find(l@, "var<uniform>"@) == Some(p as int));
            let n = l.len();
            assert(p + 12 < n);
            let rest = sub_vec(l, p + 13, n);
            match first_from_exec(rest.as_slice(), 0, true) {
                None => None,
                Some(a) => {
                    proof {
                        lemma_first_from(rest@, 0, true);
                    }
                    match first_from_exec(rest.as_slice(), a, false) {
                        None => None,
                        Some(b) => {
                            proof {
                                lemma_first_from(rest@, a as int, false);
                            }
                            let name = sub_vec(rest.as_slice(), a, b);
                            let t = param_type_exec(l);
                            Some(ShaderParameter { name: string_of(name.as_slice()), param_type: t })
                        },
                    }
                },
            }
        },
    }
}

/// The uniforms that the text declares with `var<uniform>`, one per line at
/// most, in the order of the lines: name and type.
pub fn parse_shader_parameters(shader_code: &str) -> (params: Vec<ShaderParameter>)
    requires
        readable(shader_code@),
    ensures
        params_view(params@) == declared_parameters(lines(shader_code@)),
{
    let code = chars_of(shader_code);
    let ls = lines_exec(code.as_slice());
    let ghost all = lines(shader_code@);
    let mut params: Vec<ShaderParameter> = Vec::new();
    let mut i: usize = 0;
    while i < ls.len()
        invariant
            i <= ls@.len(),
            ls@.len() == all.len(),
            all == lines(shader_code@),
            readable(shader_code@),
            forall|k: int| 0 <= k < ls@.len() ==> #[trigger] ls@[k]@ == all[k],
            params_view(params@) == declared_parameters(all.subrange(0, i as int)),
        decreases ls@.len() - i,
    {
        assert(readable_line(all[i as int]));
        let found = line_parameter_exec(ls[i].as_slice());
        assert(all.subrange(0, i + 1).drop_last() =~= all.subrange(0, i as int));
        assert(all.subrange(0, i + 1).last() == all[i as int]);
        match found {
            Some(p) => {
                params.push(p);
                assert(params_view(params@) =~= declared_parameters(all.subrange(0, i + 1)));
            },
            None => {},
        }
        i = i + 1;
    }
    assert(all.subrange(0, i as int) =~= all);
    params
}

} // verus!
