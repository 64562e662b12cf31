//! Parsing of a raw message header block into a name/value mapping.
//!
//! A header block is split into lines at `'\n'` (a `'\r'` directly before a
//! line break is dropped). Each line is split at its first `':'`: the part
//! before it is the field name, the part after it, trimmed of surrounding
//! whitespace, is the value. A line without a colon maps its whole content to
//! the empty value. When a name occurs on several lines, the last one wins.

use vstd::prelude::*;

verus! {

/// Whether `c` has the Unicode `White_Space` property, the class of
/// characters removed when a header value is trimmed.
pub open spec fn is_space(c: char) -> bool {
    let u = c as u32;
    ||| u == 0x20
    ||| (0x09 <= u && u <= 0x0D)
    ||| u == 0x85
    ||| u == 0xA0
    ||| u == 0x1680
    ||| (0x2000 <= u && u <= 0x200A)
    ||| u == 0x2028
    ||| u == 0x2029
    ||| u == 0x202F
    ||| u == 0x205F
    ||| u == 0x3000
}

/// Executable test for [`is_space`].
pub fn is_space_char(c: char) -> (r: bool)
    ensures
        r == is_space(c),
{
    let u: u32 = c as u32;
    u == 0x20 || (0x09 <= u && u <= 0x0D) || u == 0x85 || u == 0xA0 || u == 0x1680 || (0x2000
        <= u && u <= 0x200A) || u == 0x2028 || u == 0x2029 || u == 0x202F || u == 0x205F || u
        == 0x3000
}

/// Position of the first occurrence of `ch` in `s` at or after `i`,
/// or `s.len()` if there is none.
pub open spec fn scan_to(s: Seq<char>, i: int, ch: char) -> int
    decreases s.len() - i,
{
    if i < 0 || i >= s.len() {
        s.len() as int
    } else if s[i] == ch {
        i
    } else {
        scan_to(s, i + 1, ch)
    }
}

/// `scan_to` stays within bounds, lands on `ch` when it finds one, and skips
/// no occurrence of `ch`.
pub proof fn lemma_scan_to(s: Seq<char>, i: int, ch: char)
    requires
        0 <= i <= s.len(),
    ensures
        i <= scan_to(s, i, ch) <= s.len(),
        scan_to(s, i, ch) < s.len() ==> s[scan_to(s, i, ch)] == ch,
        forall|j: int| i <= j < scan_to(s, i, ch) ==> s[j] != ch,
    decreases s.len() - i,
{
    if i < s.len() && s[i] != ch {
        lemma_scan_to(s, i + 1, ch);
    }
}

/// Drops a final carriage return, as line splitting does before a line break.
pub open spec fn strip_cr(l: Seq<char>) -> Seq<char> {
    if l.len() > 0 && l.last() == '\r' {
        l.drop_last()
    } else {
        l
    }
}

/// The lines of `s` from position `i` on: split at `'\n'`, a `'\r'` directly
/// before the break is dropped, and a final line without a break is kept as it
/// stands. An empty rest yields no line.
pub open spec fn lines_from(s: Seq<char>, i: int) -> Seq<Seq<char>>
    decreases s.len() - i,
    via lines_from_decreases
{
    if i < 0 || i >= s.len() {
        Seq::empty()
    } else {
        let e = scan_to(s, i, '\n');
        if e == s.len() {
            seq![s.subrange(i, e)]
        } else {
            seq![strip_cr(s.subrange(i, e))].add(lines_from(s, e + 1))
        }
    }
}

#[via_fn]
proof fn lines_from_decreases(s: Seq<char>, i: int) {
    if 0 <= i < s.len() {
        lemma_scan_to(s, i, '\n');
    }
}

/// The lines of a whole header block.
pub open spec fn spec_lines(s: Seq<char>) -> Seq<Seq<char>> {
    lines_from(s, 0)
}

/// Leading whitespace removed.
pub open spec fn trim_start_rec(s: Seq<char>) -> Seq<char>
    decreases s.len(),
{
    if s.len() > 0 && is_space(s[0]) {
        trim_start_rec(s.drop_first())
    } else {
        s
    }
}

/// Trailing whitespace removed.
pub open spec fn trim_end_rec(s: Seq<char>) -> Seq<char>
    decreases s.len(),
{
    if s.len() > 0 && is_space(s.last()) {
        trim_end_rec(s.drop_last())
    } else {
        s
    }
}

/// Surrounding whitespace removed.
pub open spec fn spec_trim(s: Seq<char>) -> Seq<char> {
    trim_end_rec(trim_start_rec(s))
}

/// `trim_start_rec` keeps exactly the part after the leading whitespace.
pub proof fn lemma_trim_start(s: Seq<char>, k: int)
    requires
        0 <= k <= s.len(),
        forall|j: int| 0 <= j < k ==> is_space(s[j]),
        k < s.len() ==> !is_space(s[k]),
    ensures
        trim_start_rec(s) == s.subrange(k, s.len() as int),
    decreases k,
{
    if k == 0 {
        assert(s.subrange(0, s.len() as int) =~= s);
    } else {
        lemma_trim_start(s.drop_first(), k - 1);
        assert(s.drop_first().subrange(k - 1, s.drop_first().len() as int) =~= s.subrange(
            k,
            s.len() as int,
        ));
    }
}

/// `trim_end_rec` keeps exactly the part before the trailing whitespace.
pub proof fn lemma_trim_end(s: Seq<char>, k: int)
    requires
        0 <= k <= s.len(),
        forall|j: int| k <= j < s.len() ==> is_space(s[j]),
        k > 0 ==> !is_space(s[k - 1]),
    ensures
        trim_end_rec(s) == s.subrange(0, k),
    decreases s.len() - k,
{
    if k == s.len() {
        assert(s.subrange(0, k) =~= s);
    } else {
        lemma_trim_end(s.drop_last(), k);
        assert(s.drop_last() =~= s.subrange(0, s.len() - 1));
        assert(s.drop_last().subrange(0, k) =~= s.subrange(0, k));
    }
}

/// One header line split at its first colon: name before it, trimmed value
/// after it. A line without a colon maps whole to the empty value.
pub open spec fn spec_parse_line(l: Seq<char>) -> (Seq<char>, Seq<char>) {
    let c = scan_to(l, 0, ':');
    if c == l.len() {
        (l, Seq::empty())
    } else {
        (l.subrange(0, c), spec_trim(l.subrange(c + 1, l.len() as int)))
    }
}

/// The name/value pairs of a whole header block, in line order.
pub open spec fn spec_header_pairs(s: Seq<char>) -> Seq<(Seq<char>, Seq<char>)> {
    spec_lines(s).map_values(|l: Seq<char>| spec_parse_line(l))
}

/// The views of a vector of parsed pairs.
pub open spec fn pair_views(v: Seq<(String, String)>) -> Seq<(Seq<char>, Seq<char>)> {
    v.map_values(|p: (String, String)| (p.0@, p.1@))
}

/// The value under `name`, where the last line with that name wins, as a
/// collected map would have it.
pub open spec fn spec_lookup(hs: Seq<(Seq<char>, Seq<char>)>, name: Seq<char>) -> Option<
    Seq<char>,
>
    decreases hs.len(),
{
    if hs.len() == 0 {
        None
    } else if hs.last().0 == name {
        Some(hs.last().1)
    } else {
        spec_lookup(hs.drop_last(), name)
    }
}

/// Parses a raw header block into its name/value pairs, in line order.
///
/// Each line is split at its first colon, the value is trimmed of surrounding
/// whitespace, and a line without a colon maps whole to the empty value.
#[verifier::rlimit(100)]
pub fn parse_headers(block: &str) -> (r: Vec<(String, String)>)
    ensures
        pair_views(r@) == spec_header_pairs(block@),
{
    let ghost s = block@;
    let len: usize = block.unicode_len();
    let mut r: Vec<(String, String)> = Vec::new();
    let mut i: usize = 0;
    while i < len
        invariant
            len == s.len(),
            s == block@,
            0 <= i <= len,
            spec_header_pairs(s) =~= pair_views(r@) + lines_from(s, i as int).map_values(
                (|l: Seq<char>| spec_parse_line(l)),
            ),
        decreases len - i,
    {
        // End of the current line: the next '\n', or the end of the block.
        let mut j: usize = i;
        while j < len && block.get_char(j) != '\n'
            invariant
                len == s.len(),
                s == block@,
                i <= j <= len,
                scan_to(s, i as int, '\n') == scan_to(s, j as int, '\n'),
            decreases len - j,
        {
            j = j + 1;
        }
        proof {
            lemma_scan_to(s, j as int, '\n');
            assert(scan_to(s, i as int, '\n') == j as int);
        }
        let terminated = j < len;
        let line_hi: usize = if terminated && j > i && block.get_char(j - 1) == '\r' {
            j - 1
        } else {
            j
        };
        let ghost l = if terminated {
            strip_cr(s.subrange(i as int, j as int))
        } else {
            s.subrange(i as int, j as int)
        };
        proof {
            assert(l =~= s.subrange(i as int, line_hi as int));
        }
        // First colon of the line, or its end.
        let mut k: usize = i;
        while k < line_hi && block.get_char(k) != ':'
            invariant
                len == s.len(),
                s == block@,
                i <= k <= line_hi <= len,
                l == s.subrange(i as int, line_hi as int),
                scan_to(l, 0, ':') == scan_to(l, (k - i) as int, ':'),
            decreases line_hi - k,
        {
            proof {
                assert(l[(k - i) as int] == s[k as int]);
            }
            k = k + 1;
        }
        proof {
            if k < line_hi {
                assert(l[(k - i) as int] == s[k as int]);
            }
            assert(scan_to(l, (k - i) as int, ':') == (k - i) as int || scan_to(
                l,
                (k - i) as int,
                ':',
            ) == l.len() as int);
        }
        let pair: (String, String) = if k == line_hi {
            // No colon: the whole line is the name, the value is empty.
            let name = String::from_str(block.substring_char(i, line_hi));
            (name, String::new())
        } else {
            let name = String::from_str(block.substring_char(i, k));
            // Trim the value: skip whitespace after the colon and before the end.
            let mut a: usize = k + 1;
            while a < line_hi && is_space_char(block.get_char(a))
                invariant
                    len == s.len(),
                    s == block@,
                    k + 1 <= a <= line_hi <= len,
                    forall|m: int| k + 1 <= m < a ==> is_space(s[m]),
                decreases line_hi - a,
            {
                a = a + 1;
            }
            let mut b: usize = line_hi;
            while b > a && is_space_char(block.get_char(b - 1))
                invariant
                    len == s.len(),
                    s == block@,
                    a <= b <= line_hi <= len,
                    forall|m: int| b <= m < line_hi ==> is_space(s[m]),
                decreases b,
            {
                b = b - 1;
            }
            let value = String::from_str(block.substring_char(a, b));
            proof {
                let v = l.subrange((k - i + 1) as int, l.len() as int);
                assert(v =~= s.subrange(k + 1 as int, line_hi as int));
                lemma_trim_start(v, (a - (k + 1)) as int);
                let w = s.subrange(a as int, line_hi as int);
                assert(trim_start_rec(v) =~= w);
                lemma_trim_end(w, (b - a) as int);
                assert(spec_trim(v) =~= s.subrange(a as int, b as int));
            }
            (name, value)
        };
        proof {
            assert((pair.0@, pair.1@) == spec_parse_line(l));
        }
        r.push(pair);
        let i_prev: Ghost<int> = Ghost(i as int);
        if terminated {
            i = j + 1;
        } else {
            i = len;
        }
        proof {
            let f = (|l2: Seq<char>| spec_parse_line(l2));
            if j < len {
                assert(lines_from(s, i_prev@) =~= seq![l].add(lines_from(s, i as int)));
            } else {
                assert(lines_from(s, i_prev@) =~= seq![l]);
                assert(lines_from(s, i as int) =~= Seq::<Seq<char>>::empty());
            }
            assert(lines_from(s, i_prev@).map_values(f) =~= seq![f(l)].add(
                lines_from(s, i as int).map_values(f),
            ));
            assert(pair_views(r@) =~= pair_views(r@.drop_last()).push((pair.0@, pair.1@)));
            assert(spec_header_pairs(s) =~= pair_views(r@) + lines_from(s, i as int).map_values(
                f,
            ));
        }
    }
    proof {
        assert(lines_from(s, i as int) =~= Seq::<Seq<char>>::empty());
        assert(spec_header_pairs(s) =~= pair_views(r@));
    }
    r
}

/// The value stored under `name`, where the last line with that name wins,
/// as the header mapping has it.
pub fn header_value<'a>(headers: &'a Vec<(String, String)>, name: &str) -> (r: Option<
    &'a String,
>)
    ensures
        match r {
            Some(v) => spec_lookup(pair_views(headers@), name@) == Some(v@),
            None => spec_lookup(pair_views(headers@), name@) is None,
        },
{
    let mut k: usize = headers.len();
    proof {
        assert(pair_views(headers@).take(headers@.len() as int) =~= pair_views(headers@));
    }
    while k > 0
        invariant
            k <= headers.len(),
            spec_lookup(pair_views(headers@), name@) == spec_lookup(
                pair_views(headers@).take(k as int),
                name@,
            ),
        decreases k,
    {
        if str_eq(headers[k - 1].0.as_str(), name) {
            proof {
                assert(pair_views(headers@).take(k as int).last() == (
                    headers@[k - 1].0@,
                    headers@[k - 1].1@,
                ));
            }
            return Some(&headers[k - 1].1);
        }
        proof {
            assert(pair_views(headers@).take(k as int).drop_last() =~= pair_views(
                headers@,
            ).take(k - 1 as int));
        }
        k = k - 1;
    }
    proof {
        assert(pair_views(headers@).take(0) =~= Seq::<(Seq<char>, Seq<char>)>::empty());
    }
    None
}

/// Whether two strings hold the same characters.
pub fn str_eq(a: &str, b: &str) -> (r: bool)
    ensures
        r == (a@ == b@),
{
    let la: usize = a.unicode_len();
    let lb: usize = b.unicode_len();
    if la != lb {
        proof {
            assert(a@ != b@);
        }
        return false;
    }
    let mut i: usize = 0;
    while i < la
        invariant
            la == a@.len() && la == b@.len(),
            0 <= i <= la,
            forall|j: int| 0 <= j < i ==> a@[j] == b@[j],
        decreases la - i,
    {
        if a.get_char(i) != b.get_char(i) {
            return false;
        }
        i = i + 1;
    }
    proof {
        assert(a@ =~= b@);
    }
    true
}

} // verus!
