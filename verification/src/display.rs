//! How the instrument panel names a sample: the file name of its path (what
//! follows the last `/` or backslash), shortened to an ellipsis and its last
//! eight bytes when it is longer than ten bytes.

use vstd::prelude::*;

verus! {

/// Bytes that UTF-8 spends on `c`.
pub open spec fn utf8_width(c: char) -> int {
    let u = c as u32;
    if u < 0x80 {
        1
    } else if u < 0x800 {
        2
    } else if u < 0x10000 {
        3
    } else {
        4
    }
}

/// Bytes that UTF-8 spends on `s`.
pub open spec fn byte_len(s: Seq<char>) -> int
    decreases s.len(),
{
    if s.len() == 0 {
        0
    } else {
        utf8_width(s[0]) + byte_len(s.drop_first())
    }
}

/// A character that separates the directories of a path: `/` or backslash.
pub open spec fn is_separator(c: char) -> bool {
    c == '/' || c == '\\'
}

/// `i` is the position of the last separator in `s`.
pub open spec fn is_last_separator(s: Seq<char>, i: int) -> bool {
    &&& 0 <= i < s.len()
    &&& is_separator(s[i])
    &&& forall|j: int| i < j < s.len() ==> !is_separator(s[j])
}

/// The file name of a path: what follows its last `/` or backslash (all of
/// it when it has neither).
pub open spec fn file_name_of(path: Seq<char>) -> Seq<char> {
    if exists|i: int| is_last_separator(path, i) {
        path.skip((choose|i: int| is_last_separator(path, i)) + 1)
    } else {
        path
    }
}

/// A file name longer than ten bytes can be cut right before its last eight
/// bytes (which slicing a `str` there needs).
pub open spec fn cut_is_possible(name: Seq<char>) -> bool {
    byte_len(name) > 10 ==> exists|c: int| 0 <= c <= name.len() && byte_len(#[trigger] name.skip(c)) == 8
}

/// What the panel shows for a sample path: the file name, or, when that is
/// longer than ten bytes, an ellipsis followed by its last eight bytes.
pub open spec fn display_name_of(path: Seq<char>) -> Seq<char> {
    let name = file_name_of(path);
    if byte_len(name) > 10 {
        seq!['.', '.', '.'] + name.skip(choose|c: int| 0 <= c <= name.len() && byte_len(#[trigger] name.skip(c)) == 8)
    } else {
        name
    }
}

proof fn lemma_byte_len_skip_step(s: Seq<char>, c: int)
    requires
        0 <= c < s.len(),
    ensures
        byte_len(s.skip(c)) == utf8_width(s[c]) + byte_len(s.skip(c + 1)),
{
    assert(s.skip(c).drop_first() =~= s.skip(c + 1));
}

proof fn lemma_byte_len_skip_monotone(s: Seq<char>, c1: int, c2: int)
    requires
        0 <= c1 <= c2 <= s.len(),
    ensures
        byte_len(s.skip(c1)) >= byte_len(s.skip(c2)) + (c2 - c1),
    decreases c2 - c1,
{
    if c1 < c2 {
        lemma_byte_len_skip_step(s, c1);
        lemma_byte_len_skip_monotone(s, c1 + 1, c2);
    }
}

proof fn lemma_byte_len_nonneg(s: Seq<char>)
    ensures
        byte_len(s) >= s.len(),
    decreases s.len(),
{
    if s.len() > 0 {
        lemma_byte_len_nonneg(s.drop_first());
    }
}

proof fn lemma_byte_len_concat(a: Seq<char>, b: Seq<char>)
    ensures
        byte_len(a + b) == byte_len(a) + byte_len(b),
    decreases a.len(),
{
    if a.len() > 0 {
        assert((a + b).drop_first() =~= a.drop_first() + b);
        lemma_byte_len_concat(a.drop_first(), b);
    } else {
        assert(a + b =~= b);
    }
}

/// A label never takes more than eleven bytes: a file name of at most ten
/// bytes, or an ellipsis and eight bytes.
pub proof fn law_display_name_is_short(path: Seq<char>)
    requires
        cut_is_possible(file_name_of(path)),
    ensures
        byte_len(display_name_of(path)) <= 11,
{
    let name = file_name_of(path);
    if byte_len(name) > 10 {
        let c = choose|c: int| 0 <= c <= name.len() && byte_len(#[trigger] name.skip(c)) == 8;
        lemma_byte_len_concat(seq!['.', '.', '.'], name.skip(c));
        let dots = seq!['.', '.', '.'];
        assert(utf8_width('.') == 1);
        assert(dots.drop_first() =~= seq!['.', '.']);
        assert(seq!['.', '.'].drop_first() =~= seq!['.']);
        assert(seq!['.'].drop_first() =~= Seq::<char>::empty());
        assert(byte_len(Seq::<char>::empty()) == 0);
        assert(byte_len(seq!['.']) == 1);
        assert(byte_len(seq!['.', '.']) == 2);
        assert(byte_len(dots) == 3);
    }
}

/// Only `/` and backslash separate directories: whatever follows the last
/// of them is the file name, characters such as spaces included, and a path
/// with neither is its own file name. A file name of at most ten bytes is
/// shown unchanged.
pub proof fn law_file_name_follows_last_separator(dir: Seq<char>, sep: char, name: Seq<char>)
    requires
        sep == '/' || sep == '\\',
        forall|i: int| 0 <= i < name.len() ==> name[i] != '/' && name[i] != '\\',
    ensures
        file_name_of(dir.push(sep) + name) == name,
        file_name_of(name) == name,
        byte_len(name) <= 10 ==> display_name_of(dir.push(sep) + name) == name,
        byte_len(name) <= 10 ==> display_name_of(name) == name,
{
    let p = dir.push(sep) + name;
    let idx = dir.len() as int;
    assert(p[idx] == sep);
    assert forall|j: int| idx < j < p.len() implies !is_separator(p[j]) by {
        assert(p[j] == name[j - idx - 1]);
    }
    assert(is_last_separator(p, idx));
    let c = choose|i: int| is_last_separator(p, i);
    if c < idx {
        assert(!is_separator(p[idx]));
    } else if c > idx {
        assert(p[c] == name[c - idx - 1]);
    }
    assert(c == idx);
    assert(p.skip(idx + 1) =~= name);
    assert(!exists|i: int| is_last_separator(name, i)) by {
        if exists|i: int| is_last_separator(name, i) {
            let i = choose|i: int| is_last_separator(name, i);
            assert(name[i] != '/' && name[i] != '\\');
        }
    }
}

fn width(c: char) -> (w: u64)
    ensures
        w == utf8_width(c),
{
    let u = c as u32;
    if u < 0x80 {
        1
    } else if u < 0x800 {
        2
    } else if u < 0x10000 {
        3
    } else {
        4
    }
}

/// `String::push`: appends one character.
#[verifier::external_body]
fn push_char(s: &mut String, c: char)
    ensures
        final(s)@ == old(s)@.push(c),
{
    s.push(c);
}

fn collect_chars(s: &str) -> (v: Vec<char>)
    ensures
        v@ == s@,
{
    let mut v: Vec<char> = Vec::new();
    for c in it: s.chars()
        invariant
            v@ == it.seq().take(it.index() as int),
    {
        v.push(c);
    }
    v
}

/// Appends `chars[from..]` to `out`.
fn push_from(out: &mut String, chars: &Vec<char>, from: usize)
    requires
        from <= chars@.len(),
    ensures
        final(out)@ == old(out)@ + chars@.skip(from as int),
{
    let mut i = from;
    while i < chars.len()
        invariant
            from <= i <= chars@.len(),
            out@ == old(out)@ + chars@.subrange(from as int, i as int),
        decreases chars@.len() - i,
    {
        push_char(out, chars[i]);
        assert(chars@.subrange(from as int, i + 1) =~= chars@.subrange(from as int, i as int).push(chars@[i as int]));
        i = i + 1;
    }
    assert(chars@.subrange(from as int, chars@.len() as int) =~= chars@.skip(from as int));
}

/// The label the instrument panel shows for the sample at `path`.
pub fn sample_display_name(path: &str) -> (name: String)
    requires
        cut_is_possible(file_name_of(path@)),
    ensures
        name@ == display_name_of(path@),
{
    try_sample_display_name(path).unwrap()
}

/// The label for the sample at `path`, or `None` when its file name is
/// longer than ten bytes and its last eight bytes do not start on a
/// character (where slicing the name there would panic).
pub fn try_sample_display_name(path: &str) -> (name: Option<String>)
    ensures
        name is Some <==> cut_is_possible(file_name_of(path@)),
        name matches Some(n) ==> n@ == display_name_of(path@),
{
    let chars = collect_chars(path);
    let n = chars.len();
    // start of the file name: just after the last separator
    let mut start: usize = 0;
    let mut i: usize = 0;
    while i < n
        invariant
            n == chars@.len(),
            chars@ == path@,
            0 <= i <= n,
            start <= i,
            start == 0 || is_separator(chars@[start - 1]),
            forall|j: int| start <= j < i ==> !is_separator(chars@[j]),
        decreases n - i,
    {
        if chars[i] == '/' || chars[i] == '\\' {
            start = i + 1;
        }
        i = i + 1;
    }
    let ghost file = chars@.skip(start as int);
    proof {
        if start > 0 {
            assert(is_last_separator(path@, start - 1));
            let i0 = choose|i: int| is_last_separator(path@, i);
            assert(i0 == start - 1);
        } else {
            assert(!exists|i: int| is_last_separator(path@, i));
            assert(path@.skip(0) =~= path@);
        }
        assert(file == file_name_of(path@));
    }
    // byte length of the file name, counted up to eleven
    let mut total: u64 = 0;
    let mut k: usize = start;
    while k < n && total <= 10
        invariant
            n == chars@.len(),
            start <= k <= n,
            total <= 14,
            total == byte_len(chars@.skip(start as int)) - byte_len(chars@.skip(k as int)),
        decreases n - k,
    {
        proof {
            lemma_byte_len_skip_step(chars@, k as int);
        }
        total = total + width(chars[k]);
        k = k + 1;
    }
    proof {
        lemma_byte_len_nonneg(chars@.skip(k as int));
        if k == n {
            assert(chars@.skip(n as int).len() == 0);
        }
    }
    let long = total > 10;
    assert(long == (byte_len(file) > 10));
    let mut out = String::new();
    if long {
        // walk back from the end to the start of the last eight bytes
        let mut c: usize = n;
        let mut tail: u64 = 0;
        while tail < 8 && c > start
            invariant
                n == chars@.len(),
                start <= c <= n,
                tail <= 11,
                tail == byte_len(chars@.skip(c as int)),
                c < n ==> byte_len(chars@.skip(c + 1)) < 8,
            decreases c,
        {
            proof {
                lemma_byte_len_skip_step(chars@, c - 1);
            }
            c = c - 1;
            tail = tail + width(chars[c]);
        }
        proof {
            assert(chars@.skip(n as int).len() == 0);
            assert forall|d: int| 0 <= d <= file.len() implies #[trigger] file.skip(d) =~= chars@.skip(start + d) by {}
            if tail < 8 {
                // the whole file name is shorter than eight bytes: impossible
                assert(c == start);
                assert(file.skip(0) =~= file);
                assert(false);
            }
        }
        if tail != 8 {
            proof {
                let fc = (c - start) as int;
                assert forall|d: int| 0 <= d <= file.len() implies byte_len(#[trigger] file.skip(d)) != 8 by {
                    if d > fc {
                        lemma_byte_len_skip_monotone(chars@, start + fc + 1, start + d);
                    } else {
                        lemma_byte_len_skip_monotone(chars@, start + d, start + fc);
                    }
                }
            }
            return None;
        }
        proof {
            let fc = (c - start) as int;
            assert(byte_len(file.skip(fc)) == 8);
            let chosen = choose|e: int| 0 <= e <= file.len() && byte_len(#[trigger] file.skip(e)) == 8;
            if chosen < fc {
                lemma_byte_len_skip_monotone(chars@, start + chosen, start + fc);
            } else if chosen > fc {
                lemma_byte_len_skip_monotone(chars@, start + fc, start + chosen);
            }
            assert(chosen == fc);
        }
        push_char(&mut out, '.');
        push_char(&mut out, '.');
        push_char(&mut out, '.');
        push_from(&mut out, &chars, c);
        proof {
            assert(chars@.skip(c as int) =~= file.skip((c - start) as int));
        }
    } else {
        push_from(&mut out, &chars, start);
    }
    Some(out)
}

} // verus!
