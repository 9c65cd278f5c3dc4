//! Character-level helpers shared by the text-producing modules.

use vstd::prelude::*;

verus! {

/// `String::push` of the standard library: appends one character to the end
/// of the string and leaves the characters before it as they were.
pub assume_specification[ String::push ](s: &mut String, ch: char)
    ensures
        final(s)@ == old(s)@.push(ch),
;

/// The lower-case form of an ASCII capital; every other character is kept.
pub open spec fn ascii_lower_char(c: char) -> char {
    if 'A' <= c && c <= 'Z' {
        ((c as u32) + 32) as char
    } else {
        c
    }
}

/// `s` with every ASCII capital replaced by its lower-case form.
pub open spec fn ascii_lower(s: Seq<char>) -> Seq<char> {
    Seq::new(s.len(), |i: int| ascii_lower_char(s[i]))
}

/// The pieces of `parts`, in order, with `sep` between neighbours.
pub open spec fn join(parts: Seq<Seq<char>>, sep: Seq<char>) -> Seq<char>
    decreases parts.len(),
{
    if parts.len() == 0 {
        Seq::empty()
    } else if parts.len() == 1 {
        parts[0]
    } else {
        join(parts.drop_last(), sep) + sep + parts.last()
    }
}

/// The character that stands for the decimal digit `d`.
pub open spec fn digit_char(d: nat) -> char {
    ((d % 10) as u8 + 48u8) as char
}

/// `n` in decimal, without sign and without leading zeros.
pub open spec fn decimal(n: nat) -> Seq<char>
    decreases n,
{
    if n < 10 {
        seq![digit_char(n)]
    } else {
        decimal(n / 10).push(digit_char(n % 10))
    }
}

/// `n` in decimal, with a leading minus sign where it is negative.
pub open spec fn signed_decimal(n: int) -> Seq<char> {
    if n < 0 {
        seq!['-'] + decimal((-n) as nat)
    } else {
        decimal(n as nat)
    }
}

/// The characters of `s`, in order.
pub fn chars_of(s: &str) -> (v: Vec<char>)
    ensures
        v@ == s@,
{
    let mut v: Vec<char> = Vec::new();
    for c in it: s.chars()
        invariant
            it.seq() == s@,
            v@ == it.seq().take(it.index() as int),
    {
        v.push(c);
    }
    v
}

/// A string made of the characters of `v`, in order.
pub fn string_of(v: &Vec<char>) -> (s: String)
    ensures
        s@ == v@,
{
    let mut s = String::new();
    let mut i: usize = 0;
    while i < v.len()
        invariant
            i <= v.len(),
            s@ == v@.take(i as int),
        decreases v.len() - i,
    {
        s.push(v[i]);
        i += 1;
    }
    s
}

/// The characters of `s` with ASCII capitals lowered.
pub fn to_ascii_lower(s: &str) -> (v: Vec<char>)
    ensures
        v@ == ascii_lower(s@),
{
    let chars = chars_of(s);
    let mut v: Vec<char> = Vec::new();
    let mut i: usize = 0;
    while i < chars.len()
        invariant
            i <= chars.len(),
            chars@ == s@,
            v@ == ascii_lower(s@).take(i as int),
        decreases chars.len() - i,
    {
        let c = chars[i];
        let lowered = if c >= 'A' && c <= 'Z' {
            ((c as u8) + 32) as char
        } else {
            c
        };
        v.push(lowered);
        proof {
            assert(lowered == ascii_lower_char(s@[i as int]));
            assert(v@ =~= ascii_lower(s@).take(i + 1));
        }
        i += 1;
    }
    v
}

/// Whether `v` holds exactly the characters of `word`.
pub fn chars_equal(v: &Vec<char>, word: &str) -> (same: bool)
    ensures
        same == (v@ == word@),
{
    let w = chars_of(word);
    if v.len() != w.len() {
        return false;
    }
    let mut i: usize = 0;
    while i < v.len()
        invariant
            i <= v.len(),
            v.len() == w.len(),
            w@ == word@,
            v@.take(i as int) == w@.take(i as int),
        decreases v.len() - i,
    {
        if v[i] != w[i] {
            return false;
        }
        proof {
            assert(v@.take(i + 1) =~= v@.take(i as int).push(v@[i as int]));
            assert(w@.take(i + 1) =~= w@.take(i as int).push(w@[i as int]));
        }
        i += 1;
    }
    proof {
        assert(v@ =~= v@.take(v.len() as int));
        assert(w@ =~= w@.take(w.len() as int));
    }
    true
}

/// The strings of `parts`, in order, with `sep` between neighbours.
pub fn join_strings(parts: &Vec<String>, sep: &str) -> (out: String)
    ensures
        out@ == join(parts.deep_view(), sep@),
{
    let mut out = String::new();
    let mut i: usize = 0;
    while i < parts.len()
        invariant
            i <= parts.len(),
            out@ == join(parts.deep_view().take(i as int), sep@),
        decreases parts.len() - i,
    {
        let ghost done = parts.deep_view().take(i as int);
        let ghost next = parts.deep_view().take(i + 1);
        proof {
            assert(next.drop_last() =~= done);
            assert(next.last() == parts[i as int]@);
        }
        if i > 0 {
            out.append(sep);
        }
        out.append(parts[i].as_str());
        proof {
            if i == 0 {
                assert(out@ =~= parts[i as int]@);
            }
        }
        i += 1;
    }
    proof {
        assert(parts.deep_view().take(parts.len() as int) =~= parts.deep_view());
    }
    out
}

/// Appends `n` in decimal to `out`.
pub fn push_decimal(out: &mut String, n: u64)
    ensures
        final(out)@ == old(out)@ + decimal(n as nat),
{
    let mut digits: Vec<char> = Vec::new();
    let mut rest: u64 = n;
    // Least significant digit first.
    loop
        invariant_except_break
            digits@.reverse() + Seq::<char>::empty() == digits@.reverse(),
            decimal(n as nat) == decimal(rest as nat) + digits@.reverse(),
        ensures
            decimal(n as nat) == digits@.reverse(),
        decreases rest,
    {
        let d: u8 = (rest % 10) as u8;
        let c: char = (d + 48) as char;
        let ghost before = digits@;
        if rest < 10 {
            digits.push(c);
            proof {
                assert(digits@.reverse() =~= seq![c] + before.reverse());
                assert(decimal(rest as nat) =~= seq![c]);
            }
            break;
        }
        digits.push(c);
        proof {
            assert(digits@.reverse() =~= seq![c] + before.reverse());
            assert(decimal(rest as nat) =~= decimal((rest / 10) as nat) + seq![c]);
            assert(decimal(n as nat) =~= decimal((rest / 10) as nat) + digits@.reverse());
        }
        rest = rest / 10;
    }
    let mut i: usize = digits.len();
    while i > 0
        invariant
            i <= digits.len(),
            out@ == old(out)@ + digits@.reverse().take(digits.len() - i),
        decreases i,
    {
        i -= 1;
        out.push(digits[i]);
        proof {
            let r = digits@.reverse();
            assert(r[digits.len() - 1 - i] == digits@[i as int]);
            assert(r.take(digits.len() - i) =~= r.take(digits.len() - 1 - i).push(digits@[i as int]));
        }
    }
    proof {
        assert(digits@.reverse().take(digits.len() as int) =~= digits@.reverse());
    }
}

/// Appends `n` in decimal to `out`, with a minus sign where it is negative.
pub fn push_signed_decimal(out: &mut String, n: i64)
    ensures
        final(out)@ == old(out)@ + signed_decimal(n as int),
{
    if n < 0 {
        out.push('-');
        let magnitude: u64 = if n == i64::MIN {
            0x8000_0000_0000_0000u64
        } else {
            (-n) as u64
        };
        push_decimal(out, magnitude);
        proof {
            assert(out@ =~= old(out)@ + (seq!['-'] + decimal((-n) as nat)));
        }
    } else {
        push_decimal(out, n as u64);
    }
}

/// Whether `pattern` stands in `text` at position `at`.
pub open spec fn matches_at(text: Seq<char>, pattern: Seq<char>, at: int) -> bool {
    0 <= at && at + pattern.len() <= text.len() && text.subrange(at, at + pattern.len())
        == pattern
}

/// The first position at or after `from` where `pattern` stands in `text`.
pub open spec fn find_from(text: Seq<char>, pattern: Seq<char>, from: int) -> Option<int>
    decreases text.len() - from,
{
    if from < 0 || from + pattern.len() > text.len() {
        None
    } else if matches_at(text, pattern, from) {
        Some(from)
    } else if from >= text.len() {
        None
    } else {
        find_from(text, pattern, from + 1)
    }
}

/// What `find_from` finds is the first match at or after `from`.
pub proof fn lemma_find_from(text: Seq<char>, pattern: Seq<char>, from: int)
    requires
        0 <= from,
    ensures
        find_from(text, pattern, from) matches Some(at) ==> from <= at && matches_at(
            text,
            pattern,
            at,
        ) && forall|k: int| from <= k < at ==> !matches_at(text, pattern, k),
        find_from(text, pattern, from) is None ==> forall|k: int|
            from <= k ==> !matches_at(text, pattern, k),
    decreases text.len() - from,
{
    if from + pattern.len() <= text.len() && !matches_at(text, pattern, from) {
        if from >= text.len() {
            assert(text.subrange(from, from + pattern.len()) =~= pattern);
        } else {
            lemma_find_from(text, pattern, from + 1);
        }
    }
}

/// Whether `pattern` stands in `text` at position `at`.
pub fn matches_here(text: &Vec<char>, pattern: &Vec<char>, at: usize) -> (same: bool)
    ensures
        same == matches_at(text@, pattern@, at as int),
{
    let length = text.len();
    let width = pattern.len();
    if width > length || at > length - width {
        return false;
    }
    let mut i: usize = 0;
    while i < width
        invariant
            i <= width,
            width == pattern@.len(),
            length == text@.len(),
            at + width <= length,
            forall|k: int| 0 <= k < i ==> text@[at + k] == pattern@[k],
        decreases width - i,
    {
        if text[at + i] != pattern[i] {
            proof {
                assert(text@.subrange(at as int, at + pattern@.len())[i as int] != pattern@[i as int]);
            }
            return false;
        }
        i += 1;
    }
    proof {
        assert(text@.subrange(at as int, at + pattern@.len()) =~= pattern@);
    }
    true
}

/// The first position at or after `from` where `pattern` stands in `text`.
pub fn find(text: &Vec<char>, pattern: &Vec<char>, from: usize) -> (found: Option<usize>)
    ensures
        match found {
            Some(at) => find_from(text@, pattern@, from as int) == Some(at as int),
            None => find_from(text@, pattern@, from as int) is None,
        },
{
    if pattern.len() > text.len() {
        return None;
    }
    let last: usize = text.len() - pattern.len();
    if from > last {
        return None;
    }
    let mut i: usize = from;
    while i < last
        invariant
            from <= i <= last,
            last == text@.len() - pattern@.len(),
            find_from(text@, pattern@, from as int) == find_from(text@, pattern@, i as int),
        decreases last - i,
    {
        if matches_here(text, pattern, i) {
            return Some(i);
        }
        i += 1;
    }
    if matches_here(text, pattern, last) {
        Some(last)
    } else {
        proof {
            assert(find_from(text@, pattern@, last + 1) is None);
        }
        None
    }
}

/// Appends the characters of `source` from `from` up to `to` to `out`.
pub fn push_range(out: &mut Vec<char>, source: &Vec<char>, from: usize, to: usize)
    requires
        from <= to <= source@.len(),
    ensures
        final(out)@ == old(out)@ + source@.subrange(from as int, to as int),
{
    let mut i: usize = from;
    while i < to
        invariant
            from <= i <= to,
            to <= source@.len(),
            out@ == old(out)@ + source@.subrange(from as int, i as int),
        decreases to - i,
    {
        out.push(source[i]);
        proof {
            assert(source@.subrange(from as int, i + 1) =~= source@.subrange(
                from as int,
                i as int,
            ).push(source@[i as int]));
            assert(out@ =~= old(out)@ + source@.subrange(from as int, i + 1));
        }
        i += 1;
    }
    proof {
        assert(source@.subrange(from as int, from as int) =~= Seq::<char>::empty());
        assert(old(out)@ + Seq::<char>::empty() =~= old(out)@);
    }
}

/// Appends the characters of `word` to `out`.
pub fn push_word(out: &mut Vec<char>, word: &str)
    ensures
        final(out)@ == old(out)@ + word@,
{
    let chars = chars_of(word);
    let n = chars.len();
    push_range(out, &chars, 0, n);
    proof {
        assert(chars@.subrange(0, n as int) =~= word@);
    }
}


/// Whether `c` is white space.
pub open spec fn is_space(c: char) -> bool {
    let n = c as u32;
    ||| 0x09 <= n <= 0x0D
    ||| n == 0x20
    ||| n == 0x85
    ||| n == 0xA0
    ||| n == 0x1680
    ||| 0x2000 <= n <= 0x200A
    ||| n == 0x2028
    ||| n == 0x2029
    ||| n == 0x202F
    ||| n == 0x205F
    ||| n == 0x3000
}

/// How many characters of white space `text` begins with.
pub open spec fn leading_spaces(text: Seq<char>) -> nat
    decreases text.len(),
{
    if text.len() > 0 && is_space(text[0]) {
        1 + leading_spaces(text.skip(1))
    } else {
        0
    }
}

/// How many characters of white space `text` ends with.
pub open spec fn trailing_spaces(text: Seq<char>) -> nat
    decreases text.len(),
{
    if text.len() > 0 && is_space(text.last()) {
        1 + trailing_spaces(text.drop_last())
    } else {
        0
    }
}

/// `text` without the white space around it.
pub open spec fn trimmed(text: Seq<char>) -> Seq<char> {
    let front = leading_spaces(text);
    let rest = text.skip(front as int);
    rest.take(rest.len() - trailing_spaces(rest))
}


/// Whether `c` is white space.
pub fn space(c: char) -> (yes: bool)
    ensures
        yes == is_space(c),
{
    let n = c as u32;
    (0x09 <= n && n <= 0x0D) || n == 0x20 || n == 0x85 || n == 0xA0 || n == 0x1680 || (0x2000 <= n
        && n <= 0x200A) || n == 0x2028 || n == 0x2029 || n == 0x202F || n == 0x205F || n == 0x3000
}

/// The lower-case form of an ASCII capital; every other character as it is.
pub fn lower(c: char) -> (l: char)
    ensures
        l == ascii_lower_char(c),
{
    if c >= 'A' && c <= 'Z' {
        ((c as u8) + 32) as char
    } else {
        c
    }
}

/// Finds the part of `text` between `from` and `to` that is left when the
/// white space around it is taken off.
pub fn trim_range(text: &Vec<char>, from: usize, to: usize) -> (bounds: (usize, usize))
    requires
        from <= to <= text@.len(),
    ensures
        from <= bounds.0 <= bounds.1 <= to,
        text@.subrange(bounds.0 as int, bounds.1 as int) == trimmed(
            text@.subrange(from as int, to as int),
        ),
{
    let ghost piece = text@.subrange(from as int, to as int);
    let mut front: usize = from;
    proof {
        assert(piece.skip(0) =~= piece);
    }
    while front < to && space(text[front])
        invariant
            from <= front <= to,
            to <= text@.len(),
            piece == text@.subrange(from as int, to as int),
            leading_spaces(piece) == (front - from) + leading_spaces(piece.skip(front - from)),
        decreases to - front,
    {
        proof {
            let k = front - from;
            assert(piece.skip(k)[0] == text@[front as int]);
            assert(piece.skip(k).skip(1) =~= piece.skip(k + 1));
        }
        front += 1;
    }
    let ghost rest = piece.skip(front - from);
    proof {
        if front < to {
            assert(rest[0] == text@[front as int]);
        }
        assert(leading_spaces(rest) == 0);
        assert(rest.take(rest.len() as int) =~= rest);
    }
    let mut back: usize = to;
    while back > front && space(text[back - 1])
        invariant
            front <= back <= to,
            from <= front,
            to <= text@.len(),
            piece == text@.subrange(from as int, to as int),
            rest == piece.skip(front - from),
            trailing_spaces(rest) == (to - back) + trailing_spaces(rest.take(back - front)),
        decreases back,
    {
        proof {
            let kept = rest.take(back - front);
            assert(kept.last() == text@[back - 1]);
            assert(kept.drop_last() =~= rest.take(back - 1 - front));
        }
        back -= 1;
    }
    proof {
        let kept = rest.take(back - front);
        if back > front {
            assert(kept.last() == text@[back - 1]);
        }
        assert(trailing_spaces(kept) == 0);
        assert(trimmed(piece) == kept);
        assert(kept =~= text@.subrange(front as int, back as int));
    }
    (front, back)
}

/// How many characters other than white space `text` begins with.
pub open spec fn leading_word(text: Seq<char>) -> nat
    decreases text.len(),
{
    if text.len() > 0 && !is_space(text[0]) {
        1 + leading_word(text.skip(1))
    } else {
        0
    }
}

/// The words of `text`: the longest runs of characters other than white
/// space, in order.
pub open spec fn words(text: Seq<char>) -> Seq<Seq<char>>
    decreases text.len(),
{
    let start = leading_spaces(text) as int;
    let rest = text.skip(start);
    let width = leading_word(rest) as int;
    if width == 0 || start + width > text.len() {
        Seq::empty()
    } else {
        seq![rest.take(width)] + words(rest.skip(width))
    }
}

/// Splits `text` into its words.
pub fn split_words(text: &Vec<char>) -> (out: Vec<String>)
    ensures
        out.deep_view() == words(text@),
{
    let n = text.len();
    let mut out: Vec<String> = Vec::new();
    let mut at: usize = 0;
    proof {
        assert(text@.skip(0) =~= text@);
        assert(out.deep_view() =~= Seq::<Seq<char>>::empty());
        assert(Seq::<Seq<char>>::empty() + words(text@) =~= words(text@));
    }
    loop
        invariant_except_break
            words(text@) == out.deep_view() + words(text@.skip(at as int)),
        invariant
            at <= n,
            n == text@.len(),
        ensures
            out.deep_view() == words(text@),
        decreases n - at,
    {
        let ghost tail = text@.skip(at as int);
        let ghost done = out.deep_view();
        let mut start: usize = at;
        proof {
            assert(tail.skip(0) =~= tail);
        }
        while start < n && space(text[start])
            invariant
                at <= start <= n,
                n == text@.len(),
                tail == text@.skip(at as int),
                leading_spaces(tail) == (start - at) + leading_spaces(tail.skip(start - at)),
            decreases n - start,
        {
            proof {
                let k = start - at;
                assert(tail.skip(k)[0] == text@[start as int]);
                assert(tail.skip(k).skip(1) =~= tail.skip(k + 1));
            }
            start += 1;
        }
        let ghost rest = tail.skip(start - at);
        proof {
            if start < n {
                assert(rest[0] == text@[start as int]);
            }
            assert(leading_spaces(rest) == 0);
            assert(leading_spaces(tail) == start - at);
            assert(rest.skip(0) =~= rest);
            assert(rest =~= text@.skip(start as int));
        }
        let mut end: usize = start;
        while end < n && !space(text[end])
            invariant
                start <= end <= n,
                n == text@.len(),
                rest == text@.skip(start as int),
                leading_word(rest) == (end - start) + leading_word(rest.skip(end - start)),
            decreases n - end,
        {
            proof {
                let k = end - start;
                assert(rest.skip(k)[0] == text@[end as int]);
                assert(rest.skip(k).skip(1) =~= rest.skip(k + 1));
            }
            end += 1;
        }
        proof {
            let last = rest.skip(end - start);
            if end < n {
                assert(last[0] == text@[end as int]);
            }
            assert(leading_word(last) == 0);
            assert(leading_word(rest) == end - start);
        }
        if end == start {
            proof {
                assert(words(tail) =~= Seq::<Seq<char>>::empty());
                assert(done + Seq::<Seq<char>>::empty() =~= done);
            }
            break;
        }
        let mut word: Vec<char> = Vec::new();
        push_range(&mut word, text, start, end);
        out.push(string_of(&word));
        proof {
            assert(word@ =~= rest.take(end - start));
            assert(rest.skip(end - start) =~= text@.skip(end as int));
            assert(words(tail) == seq![rest.take(end - start)] + words(text@.skip(end as int)));
            assert(out.deep_view() =~= done.push(word@));
            assert(out.deep_view() + words(text@.skip(end as int)) =~= done + words(tail));
        }
        at = end;
    }
    out
}

/// The pieces of `text` between the occurrences of `separator`, in order;
/// there is one piece more than there are separators.
pub open spec fn split_on(text: Seq<char>, separator: char) -> Seq<Seq<char>>
    decreases text.len(),
{
    if text.len() == 0 {
        seq![Seq::empty()]
    } else {
        let before = split_on(text.drop_last(), separator);
        if text.last() == separator {
            before.push(Seq::empty())
        } else if before.len() > 0 {
            before.drop_last().push(before.last().push(text.last()))
        } else {
            before
        }
    }
}

/// The characters of each of `pieces`.
pub open spec fn texts(pieces: Seq<Vec<char>>) -> Seq<Seq<char>> {
    Seq::new(pieces.len(), |i: int| pieces[i]@)
}

/// Splits `text` at every occurrence of `separator`.
pub fn split_at(text: &Vec<char>, separator: char) -> (out: Vec<Vec<char>>)
    ensures
        texts(out@) == split_on(text@, separator),
        out@.len() > 0,
{
    let mut out: Vec<Vec<char>> = Vec::new();
    let mut piece: Vec<char> = Vec::new();
    let mut i: usize = 0;
    proof {
        assert(text@.take(0) =~= Seq::<char>::empty());
        assert(texts(out@).push(piece@) =~= split_on(text@.take(0), separator));
    }
    while i < text.len()
        invariant
            i <= text@.len(),
            texts(out@).push(piece@) == split_on(text@.take(i as int), separator),
        decreases text@.len() - i,
    {
        let ghost done = texts(out@);
        let ghost held = piece@;
        let c = text[i];
        proof {
            assert(text@.take(i + 1).drop_last() =~= text@.take(i as int));
            assert(text@.take(i + 1).last() == c);
            assert(done.push(held).drop_last() =~= done);
        }
        if c == separator {
            out.push(piece);
            piece = Vec::new();
            proof {
                assert(texts(out@) =~= done.push(held));
                assert(piece@ =~= Seq::<char>::empty());
            }
        } else {
            piece.push(c);
        }
        i += 1;
    }
    proof {
        assert(text@.take(text@.len() as int) =~= text@);
    }
    let ghost done = texts(out@);
    let ghost held = piece@;
    out.push(piece);
    proof {
        assert(texts(out@) =~= done.push(held));
    }
    out
}

/// `text` from `from` on, with every occurrence of `pattern` replaced by
/// `with`, the occurrences taken from the front and not overlapping.
pub open spec fn replaced_from(
    text: Seq<char>,
    pattern: Seq<char>,
    with: Seq<char>,
    from: int,
) -> Seq<char>
    decreases text.len() - from,
{
    match find_from(text, pattern, from) {
        None => text.skip(from),
        Some(at) => if pattern.len() > 0 && from <= at && at + pattern.len() <= text.len() {
            text.subrange(from, at) + with + replaced_from(
                text,
                pattern,
                with,
                at + pattern.len(),
            )
        } else {
            text.skip(from)
        },
    }
}

/// `text` with every occurrence of `pattern` replaced by `with`.
pub open spec fn replaced(text: Seq<char>, pattern: Seq<char>, with: Seq<char>) -> Seq<char> {
    replaced_from(text, pattern, with, 0)
}

/// Whether `pattern` occurs in `text`.
pub open spec fn occurs(text: Seq<char>, pattern: Seq<char>) -> bool {
    find_from(text, pattern, 0) is Some
}

/// Replaces every occurrence of `pattern` in `text` by `with`.
pub fn replace_all(text: &Vec<char>, pattern: &Vec<char>, with: &Vec<char>) -> (out: Vec<char>)
    requires
        pattern@.len() > 0,
    ensures
        out@ == replaced(text@, pattern@, with@),
{
    let n = text.len();
    let width = pattern.len();
    let mut out: Vec<char> = Vec::new();
    let mut from: usize = 0;
    proof {
        assert(out@ + replaced_from(text@, pattern@, with@, 0) =~= replaced(
            text@,
            pattern@,
            with@,
        ));
    }
    loop
        invariant_except_break
            replaced(text@, pattern@, with@) == out@ + replaced_from(
                text@,
                pattern@,
                with@,
                from as int,
            ),
        invariant
            from <= n,
            n == text@.len(),
            width == pattern@.len(),
            width > 0,
        ensures
            out@ == replaced(text@, pattern@, with@),
        decreases n - from,
    {
        let ghost done = out@;
        proof {
            lemma_find_from(text@, pattern@, from as int);
        }
        match find(text, pattern, from) {
            None => {
                push_range(&mut out, text, from, n);
                proof {
                    assert(text@.subrange(from as int, n as int) =~= text@.skip(from as int));
                }
                break;
            },
            Some(at) => {
                push_range(&mut out, text, from, at);
                let m = with.len();
                push_range(&mut out, with, 0, m);
                proof {
                    assert(with@.subrange(0, m as int) =~= with@);
                    assert(out@ + replaced_from(text@, pattern@, with@, at + width) =~= done
                        + replaced_from(text@, pattern@, with@, from as int));
                }
                from = at + width;
            },
        }
    }
    out
}

/// The number that `text` denotes: an optional plus sign and then decimal
/// digits, at least one, whose value fits in 64 bits.
pub open spec fn number(text: Seq<char>) -> Option<u64> {
    let digits = if text.len() > 0 && text[0] == '+' {
        text.skip(1)
    } else {
        text
    };
    if digits.len() == 0 || !numeral(digits) || value_of(digits) > u64::MAX {
        None
    } else {
        Some(value_of(digits) as u64)
    }
}

/// Whether `text` consists of decimal digits.
pub open spec fn numeral(text: Seq<char>) -> bool {
    forall|i: int| 0 <= i < text.len() ==> '0' <= #[trigger] text[i] && text[i] <= '9'
}

/// The number that the digits of `text` denote.
pub open spec fn value_of(text: Seq<char>) -> nat
    decreases text.len(),
{
    if text.len() == 0 {
        0
    } else {
        value_of(text.drop_last()) * 10 + (text.last() as u32 - 48) as nat
    }
}

/// The value of a numeral does not shrink as digits are added.
pub proof fn lemma_value_grows(text: Seq<char>, shorter: int)
    requires
        numeral(text),
        0 <= shorter <= text.len(),
    ensures
        value_of(text.take(shorter)) <= value_of(text),
    decreases text.len() - shorter,
{
    if shorter < text.len() {
        lemma_value_grows(text, shorter + 1);
        assert(text.take(shorter + 1).drop_last() =~= text.take(shorter));
        assert('0' <= text[shorter]);
        assert(text.take(shorter + 1).last() == text[shorter]);
    } else {
        assert(text.take(shorter) =~= text);
    }
}

/// Reads a number: an optional plus sign and then decimal digits.
pub fn parse_number(text: &str) -> (value: Option<u64>)
    ensures
        value == number(text@),
{
    let chars = chars_of(text);
    let n = chars.len();
    let start: usize = if n > 0 && chars[0] == '+' {
        1
    } else {
        0
    };
    let ghost digits = chars@.skip(start as int);
    proof {
        assert(chars@.skip(0) =~= chars@);
    }
    if start == n {
        return None;
    }
    let mut value: u64 = 0;
    let mut i: usize = start;
    proof {
        assert(digits.take(0) =~= Seq::<char>::empty());
    }
    while i < n
        invariant
            start <= i <= n,
            n == chars@.len(),
            digits == chars@.skip(start as int),
            digits.len() == n - start,
            digits.len() > 0,
            number(text@) == (if !numeral(digits) || value_of(digits) > u64::MAX {
                None
            } else {
                Some(value_of(digits) as u64)
            }),
            numeral(digits.take(i - start)),
            value == value_of(digits.take(i - start)),
        decreases n - i,
    {
        let c = chars[i];
        let ghost done = digits.take(i - start);
        let ghost next = digits.take(i + 1 - start);
        proof {
            assert(next.drop_last() =~= done);
            assert(next.last() == c);
            assert(digits[i - start] == c);
        }
        if c < '0' || c > '9' {
            return None;
        }
        let d: u64 = ((c as u32) - 48) as u64;
        proof {
            assert forall|k: int| 0 <= k < next.len() implies '0' <= #[trigger] next[k] && next[k]
                <= '9' by {
                if k < done.len() {
                    assert(next[k] == done[k]);
                }
            }
        }
        if value > (u64::MAX - d) / 10 {
            proof {
                assert(value_of(next) > u64::MAX);
                if numeral(digits) {
                    lemma_value_grows(digits, i + 1 - start);
                }
            }
            return None;
        }
        value = value * 10 + d;
        i += 1;
    }
    proof {
        assert(digits.take(n - start) =~= digits);
    }
    Some(value)
}


} // verus!
