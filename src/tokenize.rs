//! Splitting a line into whitespace-delimited words and detecting a trailing
//! background marker.
use vstd::prelude::*;
use vstd::string::StrSliceExecFns;

verus! {

/// The characters with the Unicode `White_Space` property.
pub open spec fn is_space(c: char) -> bool {
    let u = c as u32;
    (0x09 <= u <= 0x0d) || u == 0x20 || u == 0x85 || u == 0xa0 || u == 0x1680 || (0x2000 <= u
        <= 0x200a) || u == 0x2028 || u == 0x2029 || u == 0x202f || u == 0x205f || u == 0x3000
}

/// Words of `s` when `cur` holds the word read so far: a word ends at a
/// space or at the end of the line, and empty words are never produced.
pub open spec fn words_from(s: Seq<char>, cur: Seq<char>) -> Seq<Seq<char>>
    decreases s.len(),
{
    if s.len() == 0 {
        if cur.len() == 0 {
            seq![]
        } else {
            seq![cur]
        }
    } else if is_space(s[0]) {
        if cur.len() == 0 {
            words_from(s.skip(1), seq![])
        } else {
            seq![cur] + words_from(s.skip(1), seq![])
        }
    } else {
        words_from(s.skip(1), cur.push(s[0]))
    }
}

/// The maximal runs of non-space characters of `s`, in order.
pub open spec fn split_words(s: Seq<char>) -> Seq<Seq<char>> {
    words_from(s, seq![])
}

/// The word that asks for a command to run in the background.
pub open spec fn background_marker() -> Seq<char> {
    seq!['&']
}

/// The words of a line and whether it runs in the background: a last word
/// that is exactly `&` is taken off and sets the flag.
pub open spec fn parse_line(line: Seq<char>) -> (Seq<Seq<char>>, bool) {
    let t = split_words(line);
    if t.len() > 0 && t.last() == background_marker() {
        (t.drop_last(), true)
    } else {
        (t, false)
    }
}

/// Whether `c` is white space, as `char::is_whitespace` decides it.
pub fn is_space_char(c: char) -> (r: bool)
    ensures
        r == is_space(c),
{
    let u = c as u32;
    (0x09 <= u && u <= 0x0d) || u == 0x20 || u == 0x85 || u == 0xa0 || u == 0x1680 || (0x2000
        <= u && u <= 0x200a) || u == 0x2028 || u == 0x2029 || u == 0x202f || u == 0x205f || u
        == 0x3000
}

/// Splits `input` at white space and strips a trailing `&` word, which sets
/// the background flag.
pub fn parse_input(input: &str) -> (res: (Vec<&str>, bool))
    ensures
        res.0.deep_view() == parse_line(input@).0,
        res.1 == parse_line(input@).1,
{
    let n = input.unicode_len();
    let ghost s = input@;
    let mut words: Vec<&str> = Vec::new();
    let mut start: usize = 0;
    let mut i: usize = 0;
    proof {
        assert(s.subrange(0, n as int) =~= s);
        assert(s.subrange(0, 0) =~= seq![]);
        assert(words.deep_view() =~= seq![]);
    }
    while i < n
        invariant
            n == s.len(),
            s == input@,
            start <= i <= n,
            words.deep_view() + words_from(s.subrange(i as int, n as int), s.subrange(
                start as int,
                i as int,
            )) == split_words(s),
        decreases n - i,
    {
        let c = input.get_char(i);
        let ghost rest = s.subrange(i as int, n as int);
        let ghost cur = s.subrange(start as int, i as int);
        let ghost before = words.deep_view();
        proof {
            assert(rest[0] == c);
            assert(rest.skip(1) =~= s.subrange(i + 1, n as int));
        }
        if is_space_char(c) {
            if start < i {
                let w = input.substring_char(start, i);
                words.push(w);
                proof {
                    assert(words.deep_view() =~= before.push(cur));
                    assert(before.push(cur) + words_from(rest.skip(1), seq![]) =~= before + (seq![
                        cur,
                    ] + words_from(rest.skip(1), seq![])));
                }
            }
            start = i + 1;
            proof {
                assert(s.subrange(start as int, i + 1) =~= seq![]);
            }
        } else {
            proof {
                assert(cur.push(c) =~= s.subrange(start as int, i + 1));
            }
        }
        i = i + 1;
    }
    let ghost cur = s.subrange(start as int, n as int);
    let ghost before = words.deep_view();
    if start < n {
        let w = input.substring_char(start, n);
        words.push(w);
        proof {
            assert(words.deep_view() =~= before.push(cur));
            assert(before.push(cur) =~= before + seq![cur]);
        }
    } else {
        proof {
            assert(before + seq![] =~= before);
        }
    }
    let len = words.len();
    if len > 0 && is_background_marker(words[len - 1]) {
        words.pop();
        proof {
            assert(words.deep_view() =~= split_words(s).drop_last());
        }
        (words, true)
    } else {
        (words, false)
    }
}

/// Whether `w` is exactly the background marker `&`.
pub fn is_background_marker(w: &str) -> (r: bool)
    ensures
        r == (w@ == background_marker()),
{
    if w.unicode_len() == 1 {
        let c = w.get_char(0);
        proof {
            if c == '&' {
                assert(w@ =~= background_marker());
            }
        }
        c == '&'
    } else {
        false
    }
}

} // verus!
