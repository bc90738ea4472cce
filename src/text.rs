use vstd::prelude::*;

verus! {

/// Character-wise equality of two string slices.
pub fn str_eq(a: &str, b: &str) -> (r: bool)
    ensures
        r == (a@ == b@),
{
    let n = a.unicode_len();
    if n != b.unicode_len() {
        return false;
    }
    let mut i: usize = 0;
    while i < n
        invariant
            n == a@.len(),
            n == b@.len(),
            i <= n,
            forall|j: int| 0 <= j < i ==> a@[j] == b@[j],
        decreases n - i,
    {
        if a.get_char(i) != b.get_char(i) {
            return false;
        }
        i = i + 1;
    }
    assert(a@ =~= b@);
    true
}

/// Unicode's White_Space property, which `char::is_whitespace` follows.
pub open spec fn is_ws(c: char) -> bool {
    let n = c as u32;
    (0x9 <= n && n <= 0xd) || n == 0x20 || n == 0x85 || n == 0xa0 || n == 0x1680 || (0x2000 <= n
        && n <= 0x200a) || n == 0x2028 || n == 0x2029 || n == 0x202f || n == 0x205f || n == 0x3000
}

pub fn is_whitespace(c: char) -> (r: bool)
    ensures
        r == is_ws(c),
{
    let n = c as u32;
    (0x9 <= n && n <= 0xd) || n == 0x20 || n == 0x85 || n == 0xa0 || n == 0x1680 || (0x2000 <= n
        && n <= 0x200a) || n == 0x2028 || n == 0x2029 || n == 0x202f || n == 0x205f || n == 0x3000
}

/// The whitespace-separated tokens of `l`, left to right, none empty.
pub open spec fn tokens(l: Seq<char>) -> Seq<Seq<char>>
    decreases l.len(),
{
    if l.len() == 0 {
        Seq::empty()
    } else {
        let t = tokens(l.drop_last());
        let c = l.last();
        if is_ws(c) {
            t
        } else if l.len() >= 2 && !is_ws(l[l.len() - 2]) {
            t.drop_last().push(t.last().push(c))
        } else {
            t.push(seq![c])
        }
    }
}

/// A line without the one carriage return that may end it.
pub open spec fn strip_cr(l: Seq<char>) -> Seq<char> {
    if l.len() > 0 && l.last() == '\r' {
        l.drop_last()
    } else {
        l
    }
}

/// The lines completed so far in `s`, and the text of the line still open.
pub open spec fn line_scan(s: Seq<char>) -> (Seq<Seq<char>>, Seq<char>)
    decreases s.len(),
{
    if s.len() == 0 {
        (Seq::empty(), Seq::empty())
    } else {
        let (done, open) = line_scan(s.drop_last());
        if s.last() == '\n' {
            (done.push(strip_cr(open)), Seq::empty())
        } else {
            (done, open.push(s.last()))
        }
    }
}

/// The lines of `s`: split at each line feed, each line losing one carriage
/// return before it; a last line is kept only when it is not empty.
pub open spec fn lines(s: Seq<char>) -> Seq<Seq<char>> {
    let (done, open) = line_scan(s);
    if open.len() > 0 {
        done.push(open)
    } else {
        done
    }
}

/// The lines before the first empty one.
pub open spec fn head(ls: Seq<Seq<char>>) -> Seq<Seq<char>>
    decreases ls.len(),
{
    if ls.len() == 0 || ls[0].len() == 0 {
        Seq::empty()
    } else {
        seq![ls[0]] + head(ls.drop_first())
    }
}

pub open spec fn strings_view(v: Seq<String>) -> Seq<Seq<char>> {
    v.map_values(|t: String| t@)
}

/// Splits a line into its whitespace-separated tokens.
pub fn split_whitespace(l: &str) -> (r: Vec<String>)
    ensures
        strings_view(r@) == tokens(l@),
{
    let n = l.unicode_len();
    let mut out: Vec<String> = Vec::new();
    let mut start: usize = 0;
    let mut in_tok = false;
    let mut i: usize = 0;
    while i < n
        invariant
            n == l@.len(),
            i <= n,
            start <= i,
            in_tok <==> (i > 0 && !is_ws(l@[i - 1])),
            in_tok ==> start < i && (start == 0 || is_ws(l@[start - 1])),
            in_tok ==> tokens(l@.take(i as int)) == strings_view(out@).push(
                l@.subrange(start as int, i as int),
            ),
            !in_tok ==> tokens(l@.take(i as int)) == strings_view(out@),
        decreases n - i,
    {
        let c = l.get_char(i);
        let ghost pre = l@.take(i as int);
        proof {
            assert(l@.take(i + 1).drop_last() =~= pre);
            assert(l@.take(i + 1).last() == c);
        }
        if is_whitespace(c) {
            if in_tok {
                let t = l.substring_char(start, i);
                let ghost before = out@;
                out.push(t.to_owned());
                proof {
                    assert(strings_view(out@) =~= strings_view(before).push(t@));
                }
                in_tok = false;
            }
        } else {
            if in_tok {
                proof {
                    assert(l@.subrange(start as int, i + 1) =~= l@.subrange(start as int, i as int).push(c));
                    assert(strings_view(out@).push(l@.subrange(start as int, i as int)).drop_last() =~= strings_view(out@));
                }
            } else {
                start = i;
                in_tok = true;
                proof {
                    assert(l@.subrange(i as int, i + 1) =~= seq![c]);
                }
            }
        }
        i = i + 1;
    }
    assert(l@.take(n as int) =~= l@);
    if in_tok {
        let t = l.substring_char(start, n);
        let ghost before = out@;
        out.push(t.to_owned());
        proof {
            assert(strings_view(out@) =~= strings_view(before).push(t@));
        }
    }
    out
}

/// Splits text into its lines.
pub fn split_lines(s: &str) -> (r: Vec<String>)
    ensures
        strings_view(r@) == lines(s@),
{
    let n = s.unicode_len();
    let mut out: Vec<String> = Vec::new();
    let mut start: usize = 0;
    let mut i: usize = 0;
    while i < n
        invariant
            n == s@.len(),
            start <= i <= n,
            line_scan(s@.take(i as int)) == (strings_view(out@), s@.subrange(start as int, i as int)),
        decreases n - i,
    {
        let c = s.get_char(i);
        proof {
            assert(s@.take(i + 1).drop_last() =~= s@.take(i as int));
            assert(s@.take(i + 1).last() == c);
        }
        if c == '\n' {
            let end = if i > start && s.get_char(i - 1) == '\r' {
                i - 1
            } else {
                i
            };
            let t = s.substring_char(start, end);
            proof {
                assert(t@ =~= strip_cr(s@.subrange(start as int, i as int)));
            }
            let ghost before = out@;
            out.push(t.to_owned());
            proof {
                assert(strings_view(out@) =~= strings_view(before).push(t@));
                assert(s@.subrange(i + 1, i + 1) =~= Seq::<char>::empty());
            }
            start = i + 1;
        } else {
            proof {
                assert(s@.subrange(start as int, i + 1) =~= s@.subrange(start as int, i as int).push(c));
            }
        }
        i = i + 1;
    }
    assert(s@.take(n as int) =~= s@);
    if start < n {
        let t = s.substring_char(start, n);
        let ghost before = out@;
        out.push(t.to_owned());
        proof {
            assert(strings_view(out@) =~= strings_view(before).push(t@));
        }
    }
    out
}

pub open spec fn no_newline(x: Seq<char>) -> bool {
    forall|i: int| 0 <= i < x.len() ==> x[i] != '\n'
}

/// Text with no line feed is one open line.
pub proof fn lemma_scan_open_line(x: Seq<char>)
    requires
        no_newline(x),
    ensures
        line_scan(x) == (Seq::<Seq<char>>::empty(), x),
    decreases x.len(),
{
    if x.len() > 0 {
        lemma_scan_open_line(x.drop_last());
        assert(x.drop_last().push(x.last()) =~= x);
    } else {
        assert(x =~= Seq::<char>::empty());
    }
}

/// Scanning text that follows a completed line continues from a clean state.
pub proof fn lemma_scan_append(s: Seq<char>, t: Seq<char>)
    requires
        line_scan(s).1.len() == 0,
    ensures
        line_scan(s + t) == (line_scan(s).0 + line_scan(t).0, line_scan(t).1),
    decreases t.len(),
{
    if t.len() == 0 {
        assert(s + t =~= s);
        assert(line_scan(s).0 + line_scan(t).0 =~= line_scan(s).0);
        assert(line_scan(s).1 =~= Seq::<char>::empty());
    } else {
        lemma_scan_append(s, t.drop_last());
        assert((s + t).drop_last() =~= s + t.drop_last());
        assert((s + t).last() == t.last());
        let a = line_scan(s).0;
        let (d, o) = line_scan(t.drop_last());
        assert((a + d).push(strip_cr(o)) =~= a + d.push(strip_cr(o)));
    }
}

/// A line without line feeds, ended by a carriage return and a line feed,
/// scans as exactly that line.
pub proof fn lemma_scan_crlf_line(x: Seq<char>)
    requires
        no_newline(x),
    ensures
        line_scan(x + "\r\n"@) == (seq![x], Seq::<char>::empty()),
{
    reveal_strlit("\r\n");
    let y = x.push('\r');
    assert(no_newline(y));
    lemma_scan_open_line(y);
    let z = x + "\r\n"@;
    assert(z.drop_last() =~= y);
    assert(strip_cr(y) =~= x);
    assert(Seq::<Seq<char>>::empty().push(x) =~= seq![x]);
}

/// Lines followed by an empty line end the head, whatever comes after.
pub proof fn lemma_head_stops(h: Seq<Seq<char>>, rest: Seq<Seq<char>>)
    requires
        forall|i: int| 0 <= i < h.len() ==> h[i].len() > 0,
    ensures
        head(h + seq![Seq::<char>::empty()] + rest) == h,
    decreases h.len(),
{
    let all = h + seq![Seq::<char>::empty()] + rest;
    if h.len() == 0 {
        assert(all[0] == Seq::<char>::empty());
        assert(head(all) =~= h);
    } else {
        lemma_head_stops(h.drop_first(), rest);
        assert(all.drop_first() =~= h.drop_first() + seq![Seq::<char>::empty()] + rest);
        assert(seq![h[0]] + h.drop_first() =~= h);
    }
}

} // verus!
