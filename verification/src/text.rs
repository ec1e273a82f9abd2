//! Verified text utilities: decimal rendering of integers, splitting a
//! path on `/`, and locating the first `/` of an `owner/name` pair.

use vstd::prelude::*;
use vstd::string::StrSliceExecFns;
use vstd::string::StringExecFns;

verus! {

// ---------------------------------------------------------------------------
// Decimal digits
// ---------------------------------------------------------------------------

/// The decimal digit character for a value below ten.
pub open spec fn digit_char(d: int) -> char {
    if d == 0 {
        '0'
    } else if d == 1 {
        '1'
    } else if d == 2 {
        '2'
    } else if d == 3 {
        '3'
    } else if d == 4 {
        '4'
    } else if d == 5 {
        '5'
    } else if d == 6 {
        '6'
    } else if d == 7 {
        '7'
    } else if d == 8 {
        '8'
    } else {
        '9'
    }
}

/// The decimal text of `n`, most significant digit first, no sign and no
/// leading zeros (a single `0` for zero).
pub open spec fn dec_str(n: int) -> Seq<char>
    decreases n,
{
    if n < 10 {
        seq![digit_char(n)]
    } else {
        dec_str(n / 10).push(digit_char(n % 10))
    }
}

fn digit_str(d: u32) -> (r: &'static str)
    requires
        d < 10,
    ensures
        r@ == seq![digit_char(d as int)],
{
    proof {
        reveal_strlit("0");
        reveal_strlit("1");
        reveal_strlit("2");
        reveal_strlit("3");
        reveal_strlit("4");
        reveal_strlit("5");
        reveal_strlit("6");
        reveal_strlit("7");
        reveal_strlit("8");
        reveal_strlit("9");
        assert("0"@ =~= seq!['0']);
        assert("1"@ =~= seq!['1']);
        assert("2"@ =~= seq!['2']);
        assert("3"@ =~= seq!['3']);
        assert("4"@ =~= seq!['4']);
        assert("5"@ =~= seq!['5']);
        assert("6"@ =~= seq!['6']);
        assert("7"@ =~= seq!['7']);
        assert("8"@ =~= seq!['8']);
        assert("9"@ =~= seq!['9']);
    }
    match d {
        0 => "0",
        1 => "1",
        2 => "2",
        3 => "3",
        4 => "4",
        5 => "5",
        6 => "6",
        7 => "7",
        8 => "8",
        _ => "9",
    }
}

/// Renders `n` as decimal text.
pub fn u32_to_dec(n: u32) -> (r: String)
    ensures
        r@ == dec_str(n as int),
    decreases n,
{
    if n < 10 {
        digit_str(n).to_owned()
    } else {
        let q = n / 10;
        let d = n % 10;
        let mut s = u32_to_dec(q);
        s.append(digit_str(d));
        proof {
            assert(dec_str(q as int).push(digit_char(d as int)) =~= dec_str(q as int) + seq![
                digit_char(d as int),
            ]);
        }
        s
    }
}

// ---------------------------------------------------------------------------
// Splitting on '/'
// ---------------------------------------------------------------------------

/// The segments of `s` between `/` characters, in order.  Splitting the
/// empty text yields one empty segment, exactly as `str::split('/')` does.
pub open spec fn split_slash(s: Seq<char>) -> Seq<Seq<char>>
    decreases s.len(),
{
    if s.len() == 0 {
        seq![Seq::<char>::empty()]
    } else if s.last() == '/' {
        split_slash(s.drop_last()).push(Seq::<char>::empty())
    } else {
        let r = split_slash(s.drop_last());
        r.update(r.len() - 1, r.last().push(s.last()))
    }
}

/// The views of a sequence of strings.
pub open spec fn seq_views(v: Seq<String>) -> Seq<Seq<char>> {
    v.map_values(|x: String| x@)
}

/// Splits `s` on `/`, returning the segments in order.
pub fn split_slash_str(s: &str) -> (r: Vec<String>)
    ensures
        seq_views(r@) == split_slash(s@),
{
    let n = s.unicode_len();
    let mut segs: Vec<String> = Vec::new();
    let mut start: usize = 0;
    let mut i: usize = 0;
    proof {
        assert(s@.take(0int) =~= Seq::<char>::empty());
        assert(seq_views(segs@).push(s@.subrange(0int, 0int)) =~~= seq![Seq::<char>::empty()]);
    }
    while i < n
        invariant
            n == s@.len(),
            start <= i <= n,
            split_slash(s@.take(i as int)) == seq_views(segs@).push(
                s@.subrange(start as int, i as int),
            ),
        decreases n - i,
    {
        let c = s.get_char(i);
        proof {
            assert(s@.take(i as int + 1).drop_last() =~= s@.take(i as int));
            assert(s@.take(i as int + 1).last() == s@[i as int]);
        }
        if c == '/' {
            let seg = s.substring_char(start, i).to_owned();
            proof {
                let old_views = seq_views(segs@);
                let cur = s@.subrange(start as int, i as int);
                assert(seq_views(segs@.push(seg)) =~= old_views.push(cur));
                assert(split_slash(s@.take(i as int + 1)) =~= old_views.push(cur).push(
                    Seq::<char>::empty(),
                ));
                assert(s@.subrange(i as int + 1, i as int + 1) =~= Seq::<char>::empty());
            }
            segs.push(seg);
            start = i + 1;
        } else {
            proof {
                let views = seq_views(segs@);
                let cur = s@.subrange(start as int, i as int);
                let r = views.push(cur);
                assert(r.update(r.len() - 1, r.last().push(s@[i as int])) =~= views.push(
                    cur.push(s@[i as int]),
                ));
                assert(s@.subrange(start as int, i as int + 1) =~= cur.push(s@[i as int]));
            }
        }
        i = i + 1;
    }
    let last = s.substring_char(start, n).to_owned();
    proof {
        assert(seq_views(segs@.push(last)) =~= seq_views(segs@).push(
            s@.subrange(start as int, n as int),
        ));
        assert(s@.take(n as int) =~= s@);
    }
    segs.push(last);
    segs
}

// ---------------------------------------------------------------------------
// The owner/name key of a pull-request URL
// ---------------------------------------------------------------------------

/// The `owner/name` key of a pull-request URL, read positionally: the
/// fourth- and third-from-last `/`-separated segments, joined by `/`.
/// A URL with fewer than four segments has no key.  This is the single
/// place that encodes the structural assumption that pull-request URLs
/// end in `/<owner>/<repo>/pull/<number>`.
pub open spec fn repo_key(url: Seq<char>) -> Option<Seq<char>> {
    let parts = split_slash(url);
    if parts.len() >= 4 {
        Some(parts[parts.len() - 4] + seq!['/'] + parts[parts.len() - 3])
    } else {
        None
    }
}

/// Extracts the `owner/name` key from a pull-request URL, if the URL has
/// enough path segments.
pub fn repo_key_of(url: &str) -> (r: Option<String>)
    ensures
        match r {
            Some(k) => repo_key(url@) == Some(k@),
            None => repo_key(url@) is None,
        },
{
    let parts = split_slash_str(url);
    if parts.len() >= 4 {
        let mut k = parts[parts.len() - 4].clone();
        k.append("/");
        k.append(parts[parts.len() - 3].as_str());
        proof {
            reveal_strlit("/");
            assert("/"@ =~= seq!['/']);
            let sv = seq_views(parts@);
            assert(sv[sv.len() - 4] == parts@[parts@.len() - 4]@);
            assert(sv[sv.len() - 3] == parts@[parts@.len() - 3]@);
        }
        Some(k)
    } else {
        None
    }
}

// ---------------------------------------------------------------------------
// First '/' of an owner/name pair
// ---------------------------------------------------------------------------

/// The index of the first `/` in `s`, if any.
pub open spec fn first_slash(s: Seq<char>) -> Option<int>
    decreases s.len(),
{
    if s.len() == 0 {
        None
    } else if s[0] == '/' {
        Some(0int)
    } else {
        match first_slash(s.skip(1)) {
            Some(j) => Some(j + 1),
            None => None,
        }
    }
}

/// What `first_slash` returns: an in-range index of a `/` with none before it.
pub proof fn lemma_first_slash_props(s: Seq<char>)
    ensures
        match first_slash(s) {
            Some(i) => 0 <= i < s.len() && s[i] == '/' && forall|k: int|
                0 <= k < i ==> s[k] != '/',
            None => forall|k: int| 0 <= k < s.len() ==> s[k] != '/',
        },
    decreases s.len(),
{
    if s.len() > 0 && s[0] != '/' {
        lemma_first_slash_props(s.skip(1));
        match first_slash(s.skip(1)) {
            Some(j) => {
                assert(s[j + 1] == s.skip(1)[j]);
                assert forall|k: int| 0 <= k < j + 1 implies s[k] != '/' by {
                    if k > 0 {
                        assert(s[k] == s.skip(1)[k - 1]);
                    }
                }
            },
            None => {
                assert forall|k: int| 0 <= k < s.len() implies s[k] != '/' by {
                    if k > 0 {
                        assert(s[k] == s.skip(1)[k - 1]);
                    }
                }
            },
        }
    }
}

proof fn lemma_first_slash_skip(s: Seq<char>, i: int)
    requires
        0 <= i <= s.len(),
        forall|k: int| 0 <= k < i ==> s[k] != '/',
    ensures
        first_slash(s) == match first_slash(s.skip(i)) {
            Some(j) => Some(j + i),
            None => None::<int>,
        },
    decreases i,
{
    if i > 0 {
        assert(s.skip(1).skip(i - 1) =~= s.skip(i));
        assert(forall|k: int| 0 <= k < i - 1 ==> s.skip(1)[k] != '/');
        lemma_first_slash_skip(s.skip(1), i - 1);
    } else {
        assert(s.skip(0) =~= s);
    }
}

/// Finds the first `/` in `s`, if any.
pub fn find_first_slash(s: &str) -> (r: Option<usize>)
    ensures
        match r {
            Some(i) => first_slash(s@) == Some(i as int),
            None => first_slash(s@) is None,
        },
{
    let n = s.unicode_len();
    let mut i: usize = 0;
    while i < n
        invariant
            n == s@.len(),
            i <= n,
            forall|k: int| 0 <= k < i ==> s@[k] != '/',
        decreases n - i,
    {
        if s.get_char(i) == '/' {
            proof {
                lemma_first_slash_skip(s@, i as int);
                assert(s@.skip(i as int)[0] == s@[i as int]);
            }
            return Some(i);
        }
        i = i + 1;
    }
    proof {
        lemma_first_slash_skip(s@, n as int);
        assert(s@.skip(n as int).len() == 0);
    }
    None
}

} // verus!
