//! Extraction of the maintainer handles from a recipe file's
//! structured content: the entries of the `recipe-maintainers:` list
//! under the top-level `extra:` key.

use vstd::prelude::*;

use crate::strutil::{
    eq_str, split_lines, split_lines_spec, starts_with, starts_with_seq, trim, trim_spec,
};

verus! {

/// A line that begins with indentation.
pub open spec fn line_indented(line: Seq<char>) -> bool {
    line.len() > 0 && (line[0] == ' ' || line[0] == '\t')
}

/// The trimmed line without its leading `- ` list markers.
pub open spec fn strip_dashes_spec(s: Seq<char>) -> Seq<char>
    decreases s.len(),
{
    if s.len() >= 2 && s[0] == '-' && s[1] == ' ' {
        strip_dashes_spec(s.subrange(2, s.len() as int))
    } else {
        s
    }
}

/// The scanner state after a line's top-level-key reset: an unindented
/// line naming a key re-enters the `extra:` section only when it is
/// exactly that key, and always leaves the maintainer list.
pub open spec fn reset_state(
    line: Seq<char>,
    trimmed: Seq<char>,
    in_extra: bool,
    in_maintainers: bool,
) -> (bool, bool) {
    if !line_indented(line) && trimmed.len() > 0 && trimmed.last() == ':' {
        (trimmed == "extra:"@, false)
    } else {
        (in_extra, in_maintainers)
    }
}

/// The maintainers the line scanner yields from here on: a line
/// opening `extra:` or `recipe-maintainers:` advances the state; a
/// list item inside the maintainer list contributes its trimmed name
/// when non-empty; an unindented non-empty line inside the list ends
/// the scan; any other line may reset the state at a top-level key.
pub open spec fn scan_maintainers(
    lines: Seq<Seq<char>>,
    in_extra: bool,
    in_maintainers: bool,
) -> Seq<Seq<char>>
    decreases lines.len(),
{
    if lines.len() == 0 {
        Seq::empty()
    } else {
        let line = lines.first();
        let trimmed = trim_spec(line);
        let rest = lines.drop_first();
        if starts_with_seq(trimmed, "extra:"@) {
            scan_maintainers(rest, true, in_maintainers)
        } else if in_extra && starts_with_seq(trimmed, "recipe-maintainers:"@) {
            scan_maintainers(rest, in_extra, true)
        } else if in_maintainers && starts_with_seq(trimmed, "- "@) {
            let name = trim_spec(strip_dashes_spec(trimmed));
            let st = reset_state(line, trimmed, in_extra, in_maintainers);
            if name.len() > 0 {
                seq![name] + scan_maintainers(rest, st.0, st.1)
            } else {
                scan_maintainers(rest, st.0, st.1)
            }
        } else if in_maintainers && trimmed.len() > 0 && !line_indented(line) {
            Seq::empty()
        } else {
            let st = reset_state(line, trimmed, in_extra, in_maintainers);
            scan_maintainers(rest, st.0, st.1)
        }
    }
}

/// The maintainers listed in a recipe file's content.
pub open spec fn maintainers_of(content: Seq<char>) -> Seq<Seq<char>> {
    scan_maintainers(split_lines_spec(content), false, false)
}

fn line_indented_ex(line: &str) -> (r: bool)
    ensures
        r == line_indented(line@),
{
    let len: usize = line.unicode_len();
    if len == 0 {
        return false;
    }
    let c = line.get_char(0);
    c == ' ' || c == '\t'
}

/// Strip the leading `- ` list markers from a trimmed line.
fn strip_leading_dashes(s: &str) -> (r: String)
    ensures
        r@ == strip_dashes_spec(s@),
{
    let len: usize = s.unicode_len();
    let mut i: usize = 0;
    proof {
        assert(s@.subrange(0, len as int) =~= s@);
    }
    while len - i >= 2 && s.get_char(i) == '-' && s.get_char(i + 1) == ' '
        invariant
            len == s@.len(),
            0 <= i <= len,
            strip_dashes_spec(s@) == strip_dashes_spec(s@.subrange(i as int, len as int)),
        decreases len - i,
    {
        proof {
            let suf = s@.subrange(i as int, len as int);
            assert(suf.len() >= 2 && suf[0] == '-' && suf[1] == ' ');
            assert(suf.subrange(2, suf.len() as int) =~= s@.subrange(i + 2, len as int));
        }
        i = i + 2;
    }
    proof {
        let suf = s@.subrange(i as int, len as int);
        assert(!(suf.len() >= 2 && suf[0] == '-' && suf[1] == ' '));
        assert(strip_dashes_spec(suf) == suf);
    }
    s.substring_char(i, len).to_owned()
}

/// The scanner state after a line's reset check.
fn apply_reset(line: &str, trimmed: &str, in_extra: bool, in_maintainers: bool) -> (r: (
    bool,
    bool,
))
    ensures
        r == reset_state(line@, trimmed@, in_extra, in_maintainers),
{
    let t_len: usize = trimmed.unicode_len();
    if !line_indented_ex(line) && t_len > 0 && trimmed.get_char(t_len - 1) == ':' {
        (eq_str(trimmed, "extra:"), false)
    } else {
        (in_extra, in_maintainers)
    }
}

/// Extract the maintainer handles from recipe-file content: the
/// entries of the `recipe-maintainers:` list under the `extra:` key.
pub fn extract_maintainers_from_yaml(content: &str) -> (r: Option<Vec<String>>)
    ensures
        r matches Some(v) && v.deep_view() == maintainers_of(content@),
{
    let lines = split_lines(content);
    let ghost lines_dv = lines@.map_values(|l: String| l@);
    let mut maintainers: Vec<String> = Vec::new();
    let mut in_extra = false;
    let mut in_maintainers = false;
    let n = lines.len();
    let mut i: usize = 0;
    proof {
        assert(lines_dv.subrange(0, lines_dv.len() as int) =~= lines_dv);
        assert(maintainers.deep_view() =~= Seq::<Seq<char>>::empty());
    }
    while i < n
        invariant_except_break
            n == lines@.len(),
            lines_dv == lines@.map_values(|l: String| l@),
            0 <= i <= n,
            maintainers_of(content@) == maintainers.deep_view() + scan_maintainers(
                lines_dv.subrange(i as int, n as int),
                in_extra,
                in_maintainers,
            ),
        ensures
            maintainers.deep_view() == maintainers_of(content@),
        decreases n - i,
    {
        let ghost suffix = lines_dv.subrange(i as int, n as int);
        proof {
            assert(suffix.first() == lines_dv[i as int]);
            assert(suffix.drop_first() =~= lines_dv.subrange(i + 1, n as int));
        }
        let line = &lines[i];
        let trimmed = trim(line.as_str());
        if starts_with(trimmed.as_str(), "extra:") {
            in_extra = true;
        } else if in_extra && starts_with(trimmed.as_str(), "recipe-maintainers:") {
            in_maintainers = true;
        } else if in_maintainers && starts_with(trimmed.as_str(), "- ") {
            let stripped = strip_leading_dashes(trimmed.as_str());
            let name = trim(stripped.as_str());
            let ghost prev = maintainers.deep_view();
            if name.as_str().unicode_len() > 0 {
                maintainers.push(name);
                proof {
                    assert(maintainers.deep_view() =~= prev.push(
                        trim_spec(strip_dashes_spec(trim_spec(lines_dv[i as int]))),
                    ));
                    assert(maintainers.deep_view() + scan_maintainers(
                        suffix.drop_first(),
                        reset_state(suffix.first(), trim_spec(suffix.first()), in_extra,
                            in_maintainers).0,
                        reset_state(suffix.first(), trim_spec(suffix.first()), in_extra,
                            in_maintainers).1,
                    ) =~= prev + scan_maintainers(suffix, in_extra, in_maintainers));
                }
            }
            let st = apply_reset(line.as_str(), trimmed.as_str(), in_extra, in_maintainers);
            in_extra = st.0;
            in_maintainers = st.1;
        } else if in_maintainers && trimmed.as_str().unicode_len() > 0 && !line_indented_ex(
            line.as_str(),
        ) {
            proof {
                assert(scan_maintainers(suffix, in_extra, in_maintainers)
                    =~= Seq::<Seq<char>>::empty());
                assert(maintainers.deep_view() =~= maintainers_of(content@));
            }
            break;
        } else {
            let st = apply_reset(line.as_str(), trimmed.as_str(), in_extra, in_maintainers);
            in_extra = st.0;
            in_maintainers = st.1;
        }
        i = i + 1;
    }
    Some(maintainers)
}

} // verus!
