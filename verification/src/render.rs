//! The renderer configuration types and the verified text manipulation
//! they need: ellipsis truncation and template-marker replacement.
//! Laying the table and SVG documents out onto outside drawing crates is
//! the adapters' work; the rules encoded here are the library's.

use vstd::prelude::*;
use vstd::string::StrSliceExecFns;
use vstd::string::StringExecFns;

use crate::errors::StatsError;

verus! {

/// Renders aggregated results as Markdown tables.
pub struct MarkdownRenderer {}

impl MarkdownRenderer {
    /// A Markdown renderer.
    pub fn new() -> (r: Self) {
        MarkdownRenderer {  }
    }
}

/// Renders aggregated results as SVG tables; holds the colour scheme.
pub struct SvgRenderer {
    /// Font family of every text node.
    pub font_family: String,
    /// Header row background.
    pub header_bg: String,
    /// Background of even data rows.
    pub row_bg_even: String,
    /// Background of odd data rows.
    pub row_bg_odd: String,
    /// Ordinary text colour.
    pub text_color: String,
    /// Link colour.
    pub link_color: String,
    /// Star-count colour.
    pub star_color: String,
    /// Fork-count colour.
    pub fork_color: String,
    /// Pull-request-count colour.
    pub pr_color: String,
    /// Total row background.
    pub total_row_bg: String,
    /// Title colour.
    pub title_color: String,
}

impl SvgRenderer {
    /// The stock colour scheme.
    pub fn new() -> (r: Self)
        ensures
            r.font_family@ == "Arial, sans-serif"@,
            r.header_bg@ == "#0F172A"@,
            r.row_bg_even@ == "#ffffff"@,
            r.row_bg_odd@ == "#F1F5F9"@,
            r.text_color@ == "#334155"@,
            r.link_color@ == "#2563EB"@,
            r.star_color@ == "#EAB308"@,
            r.fork_color@ == "#10B981"@,
            r.pr_color@ == "#2DA44E"@,
            r.total_row_bg@ == "#E2E8F0"@,
            r.title_color@ == "#1E293B"@,
    {
        SvgRenderer {
            font_family: "Arial, sans-serif".to_owned(),
            header_bg: "#0F172A".to_owned(),
            row_bg_even: "#ffffff".to_owned(),
            row_bg_odd: "#F1F5F9".to_owned(),
            text_color: "#334155".to_owned(),
            link_color: "#2563EB".to_owned(),
            star_color: "#EAB308".to_owned(),
            fork_color: "#10B981".to_owned(),
            pr_color: "#2DA44E".to_owned(),
            total_row_bg: "#E2E8F0".to_owned(),
            title_color: "#1E293B".to_owned(),
        }
    }

    /// Shortens ASCII text to fit a column, appending an ellipsis, under
    /// the approximation of eight pixels per character with room for
    /// padding.  Text that fits is returned unchanged.
    pub fn truncate_text(&self, text: &str, max_width: i32) -> (r: String)
        requires
            text.is_ascii(),
            40 <= max_width,
        ensures
            8 * text@.len() > max_width - 20 ==> r@ == text@.subrange(
                0,
                (max_width - 40) as int / 8,
            ) + "..."@,
            8 * text@.len() <= max_width - 20 ==> r@ == text@,
    {
        let len = text.unicode_len();
        let room = (max_width - 20) as usize;
        proof {
            assert(8 * (room as int / 8) <= room < 8 * (room as int / 8) + 8);
        }
        if len > room / 8 {
            proof {
                assert(8 * text@.len() > max_width - 20);
            }
            let max_chars = (max_width - 40) as usize / 8;
            proof {
                assert(max_chars as int == (max_width - 40) as int / 8);
                assert(8 * (max_chars as int) <= max_width - 40);
                assert(max_chars as int <= text@.len());
            }
            let mut r = text.substring_ascii(0, max_chars).to_owned();
            r.append("...");
            r
        } else {
            proof {
                assert(8 * text@.len() <= max_width - 20);
            }
            text.to_owned()
        }
    }
}

// ---------------------------------------------------------------------------
// Template-marker replacement
// ---------------------------------------------------------------------------

/// `needle` occurs in `hay` at position `i`.
pub open spec fn found_at(hay: Seq<char>, needle: Seq<char>, i: int) -> bool {
    0 <= i && i + needle.len() <= hay.len() && hay.subrange(i, i + needle.len()) == needle
}

fn match_at(hay: &str, needle: &str, i: usize) -> (b: bool)
    requires
        i + needle@.len() <= hay@.len(),
    ensures
        b == found_at(hay@, needle@, i as int),
{
    let _hay_len = hay.unicode_len();
    let m = needle.unicode_len();
    let mut k: usize = 0;
    while k < m
        invariant
            m == needle@.len(),
            _hay_len == hay@.len(),
            i + m <= hay@.len(),
            k <= m,
            forall|kk: int| 0 <= kk < k ==> hay@[i + kk] == needle@[kk],
        decreases m - k,
    {
        if hay.get_char(i + k) != needle.get_char(k) {
            proof {
                if found_at(hay@, needle@, i as int) {
                    assert(hay@.subrange(i as int, i as int + m as int)[k as int] == hay@[i as int
                        + k as int]);
                }
            }
            return false;
        }
        k = k + 1;
    }
    proof {
        assert(hay@.subrange(i as int, i as int + m as int) =~= needle@);
    }
    true
}

/// Finds the first occurrence of `needle` in `hay` at or after `from`.
pub fn find_sub(hay: &str, needle: &str, from: usize) -> (r: Option<usize>)
    requires
        from <= hay@.len(),
    ensures
        match r {
            Some(i) => from <= i && found_at(hay@, needle@, i as int) && forall|j: int|
                from <= j < i ==> !found_at(hay@, needle@, j),
            None => forall|j: int| from <= j ==> !found_at(hay@, needle@, j),
        },
{
    let n = hay.unicode_len();
    let m = needle.unicode_len();
    if m == 0 {
        proof {
            assert(hay@.subrange(from as int, from as int) =~= needle@);
        }
        return Some(from);
    }
    if m > n || from > n - m {
        proof {
            assert forall|j: int| from <= j implies !found_at(hay@, needle@, j) by {
                assert(j + m > n);
            }
        }
        return None;
    }
    let mut i: usize = from;
    while i <= n - m
        invariant
            n == hay@.len(),
            m == needle@.len(),
            1 <= m <= n,
            from <= i <= n - m + 1,
            forall|j: int| from <= j < i ==> !found_at(hay@, needle@, j),
        decreases n - i,
    {
        if match_at(hay, needle, i) {
            return Some(i);
        }
        i = i + 1;
    }
    proof {
        assert forall|j: int| from <= j implies !found_at(hay@, needle@, j) by {
            if j >= i {
                assert(j + m > n);
            }
        }
    }
    None
}

/// The line that opens a templated section.
pub open spec fn begin_marker(name: Seq<char>) -> Seq<char> {
    "<!-- BEGIN:"@ + name + " -->\n"@
}

/// The text that closes a templated section.
pub open spec fn end_marker(name: Seq<char>) -> Seq<char> {
    "<!-- END:"@ + name + " -->"@
}

/// The buffer `nb` is `ob` with the span between the first begin marker
/// (found at `sp`, kept) and the first end marker after it (found at
/// `ep`, kept) replaced by `part`.
pub open spec fn replaced_ok(
    ob: Seq<char>,
    name: Seq<char>,
    part: Seq<char>,
    nb: Seq<char>,
    sp: int,
    ep: int,
) -> bool {
    &&& found_at(ob, begin_marker(name), sp)
    &&& forall|j: int| 0 <= j < sp ==> !found_at(ob, begin_marker(name), j)
    &&& found_at(ob, end_marker(name), ep)
    &&& sp + begin_marker(name).len() <= ep
    &&& forall|j: int|
        sp + begin_marker(name).len() <= j < ep ==> !found_at(ob, end_marker(name), j)
    &&& nb == ob.take(sp + begin_marker(name).len() as int) + part + ob.skip(ep)
}

/// No begin marker occurs in `ob`, or no end marker occurs after the
/// first begin marker.
pub open spec fn marker_missing(ob: Seq<char>, name: Seq<char>) -> bool {
    (forall|j: int| !found_at(ob, begin_marker(name), j)) || exists|sp: int|
        #![auto]
        {
            &&& found_at(ob, begin_marker(name), sp)
            &&& forall|j: int|
                sp + begin_marker(name).len() <= j ==> !found_at(ob, end_marker(name), j)
        }
}

/// Replaces the text between the first `BEGIN:name` marker line and the
/// first `END:name` marker after it with `part`, keeping both markers.
///
/// Returns `StatsError::MarkerNotFound` exactly when the begin marker
/// does not occur, or no end marker occurs after it.
pub fn replace_template(buf: &mut String, name: &str, part: &str) -> (r: Result<(), StatsError>)
    ensures
        match r {
            Ok(()) => exists|sp: int, ep: int|
                #![auto]
                replaced_ok(old(buf)@, name@, part@, final(buf)@, sp, ep),
            Err(e) => e == StatsError::MarkerNotFound && final(buf)@ == old(buf)@
                && marker_missing(old(buf)@, name@),
        },
{
    let mut begin = "<!-- BEGIN:".to_owned();
    begin.append(name);
    begin.append(" -->\n");
    let mut end = "<!-- END:".to_owned();
    end.append(name);
    end.append(" -->");
    let n = buf.as_str().unicode_len();
    let sp = match find_sub(buf.as_str(), begin.as_str(), 0) {
        Some(i) => i,
        None => {
            return Err(StatsError::MarkerNotFound);
        },
    };
    let ins = sp + begin.as_str().unicode_len();
    let ep = match find_sub(buf.as_str(), end.as_str(), ins) {
        Some(i) => i,
        None => {
            return Err(StatsError::MarkerNotFound);
        },
    };
    let pre = buf.as_str().substring_char(0, ins).to_owned();
    let suf = buf.as_str().substring_char(ep, n).to_owned();
    let mut out = pre;
    out.append(part);
    out.append(suf.as_str());
    proof {
        assert(old(buf)@.subrange(0int, ins as int) =~= old(buf)@.take(ins as int));
        assert(old(buf)@.subrange(ep as int, n as int) =~= old(buf)@.skip(ep as int));
    }
    *buf = out;
    proof {
        assert(replaced_ok(old(buf)@, name@, part@, buf@, sp as int, ep as int));
    }
    Ok(())
}

} // verus!
