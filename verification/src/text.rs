//! Strings seen as sequences of characters.
//!
//! Every other module states its contracts over `Seq<char>`; the executable helpers here are
//! the ones that take strings apart and put them together again.

use vstd::prelude::*;

verus! {

/// `String::push` appends one character at the end.
pub assume_specification[ String::push ](s: &mut String, c: char)
    ensures
        final(s)@ == old(s)@.push(c),
;

// ---------------------------------------------------------------------------------------------
// Vocabulary
// ---------------------------------------------------------------------------------------------

/// The characters of each string of a list.
pub open spec fn texts(v: Seq<String>) -> Seq<Seq<char>> {
    Seq::new(v.len(), |i: int| v[i]@)
}

/// The characters of an optional string.
pub open spec fn opt_text(o: Option<String>) -> Option<Seq<char>> {
    match o {
        Some(s) => Some(s@),
        None => None,
    }
}

/// The Unicode `White_Space` property.
pub open spec fn is_space(c: char) -> bool {
    let n = c as u32;
    ||| 0x9 <= n <= 0xd
    ||| n == 0x20
    ||| n == 0x85
    ||| n == 0xa0
    ||| n == 0x1680
    ||| 0x2000 <= n <= 0x200a
    ||| n == 0x2028
    ||| n == 0x2029
    ||| n == 0x202f
    ||| n == 0x205f
    ||| n == 0x3000
}

/// `s` without its leading white space.
pub open spec fn trimmed_start(s: Seq<char>) -> Seq<char>
    decreases s.len(),
{
    if s.len() > 0 && is_space(s[0]) {
        trimmed_start(s.skip(1))
    } else {
        s
    }
}

/// `s` without its trailing white space.
pub open spec fn trimmed_end(s: Seq<char>) -> Seq<char>
    decreases s.len(),
{
    if s.len() > 0 && is_space(s.last()) {
        trimmed_end(s.drop_last())
    } else {
        s
    }
}

/// `s` without white space at either end.
pub open spec fn trimmed(s: Seq<char>) -> Seq<char> {
    trimmed_end(trimmed_start(s))
}

/// `s` without the run of `c` at its end.
pub open spec fn without_trailing(s: Seq<char>, c: char) -> Seq<char>
    decreases s.len(),
{
    if s.len() > 0 && s.last() == c {
        without_trailing(s.drop_last(), c)
    } else {
        s
    }
}

/// `s` with every `from` turned into `to`.
pub open spec fn replaced(s: Seq<char>, from: char, to: char) -> Seq<char> {
    Seq::new(
        s.len(),
        |i: int|
            if s[i] == from {
                to
            } else {
                s[i]
            },
    )
}

/// What separates the pieces of a string: one character, or white space.
pub open spec fn separates(at: Option<char>) -> spec_fn(char) -> bool {
    |x: char|
        match at {
            Some(c) => x == c,
            None => is_space(x),
        }
}

/// The pieces of `s` between the characters that satisfy `sep`, empty pieces included.
pub open spec fn split_by(s: Seq<char>, sep: spec_fn(char) -> bool) -> Seq<Seq<char>>
    decreases s.len(),
{
    if s.len() == 0 {
        seq![Seq::<char>::empty()]
    } else {
        let before = split_by(s.drop_last(), sep);
        if sep(s.last()) {
            before.push(Seq::<char>::empty())
        } else {
            before.drop_last().push(before.last().push(s.last()))
        }
    }
}

/// The non-empty members of a list, in order.
pub open spec fn non_empty(parts: Seq<Seq<char>>) -> Seq<Seq<char>>
    decreases parts.len(),
{
    if parts.len() == 0 {
        parts
    } else {
        let before = non_empty(parts.drop_last());
        if parts.last().len() > 0 {
            before.push(parts.last())
        } else {
            before
        }
    }
}

/// The non-empty pieces of `s` between occurrences of `c`.
pub open spec fn pieces(s: Seq<char>, c: char) -> Seq<Seq<char>> {
    non_empty(split_by(s, separates(Some(c))))
}

/// The maximal runs of non-space characters of `s`.
pub open spec fn words(s: Seq<char>) -> Seq<Seq<char>> {
    non_empty(split_by(s, separates(None)))
}

/// The members of a list, one after another, with `sep` between neighbours.
pub open spec fn joined(parts: Seq<Seq<char>>, sep: Seq<char>) -> Seq<char>
    decreases parts.len(),
{
    if parts.len() == 0 {
        Seq::empty()
    } else if parts.len() == 1 {
        parts[0]
    } else {
        joined(parts.drop_last(), sep) + sep + parts.last()
    }
}

/// The character of a decimal digit.
pub open spec fn digit(d: nat) -> char {
    (48 + d) as char
}

/// `n` in decimal, without leading zeros.
pub open spec fn decimal(n: nat) -> Seq<char>
    decreases n,
{
    if n < 10 {
        seq![digit(n)]
    } else {
        decimal(n / 10).push(digit(n % 10))
    }
}

/// `n` in decimal, with a leading zero if it has one digit.
pub open spec fn two_digits(n: nat) -> Seq<char> {
    if n < 10 {
        seq!['0'] + decimal(n)
    } else {
        decimal(n)
    }
}

// ---------------------------------------------------------------------------------------------
// Operations
// ---------------------------------------------------------------------------------------------

/// Whether two strings hold the same characters.
pub fn str_eq(a: &str, b: &str) -> (r: bool)
    ensures
        r == (a@ == b@),
{
    a.to_owned() == b.to_owned()
}

/// The characters of a string, one per element.
pub fn chars_of(s: &str) -> (v: Vec<char>)
    ensures
        v@ == s@,
{
    let mut v: Vec<char> = Vec::new();
    for c in it: s.chars()
        invariant
            v@ == it.seq().take(it.index() as int),
            it.seq() == s@,
    {
        v.push(c);
    }
    v
}

/// The string made of `v[from..to]`.
pub fn string_of(v: &Vec<char>, from: usize, to: usize) -> (s: String)
    requires
        from <= to <= v@.len(),
    ensures
        s@ == v@.subrange(from as int, to as int),
{
    let mut s = String::new();
    let mut i: usize = from;
    while i < to
        invariant
            from <= i <= to <= v@.len(),
            s@ == v@.subrange(from as int, i as int),
        decreases to - i,
    {
        s.push(v[i]);
        i += 1;
    }
    s
}

/// `a` followed by `b`.
pub fn cat(a: &str, b: &str) -> (s: String)
    ensures
        s@ == a@ + b@,
{
    let mut s = a.to_owned();
    s.append(b);
    s
}

/// `a`, `b` and `c`, one after another.
pub fn cat3(a: &str, b: &str, c: &str) -> (s: String)
    ensures
        s@ == a@ + b@ + c@,
{
    let mut s = a.to_owned();
    s.append(b);
    s.append(c);
    s
}

/// A copy of an optional string.
pub fn opt_clone(o: &Option<String>) -> (r: Option<String>)
    ensures
        opt_text(r) == opt_text(*o),
{
    match o {
        Some(s) => Some(s.clone()),
        None => None,
    }
}

/// Whether `c` has the Unicode `White_Space` property.
pub fn char_is_space(c: char) -> (r: bool)
    ensures
        r == is_space(c),
{
    let n: u32 = c as u32;
    (0x9 <= n && n <= 0xd) || n == 0x20 || n == 0x85 || n == 0xa0 || n == 0x1680 || (0x2000 <= n
        && n <= 0x200a) || n == 0x2028 || n == 0x2029 || n == 0x202f || n == 0x205f || n == 0x3000
}

/// `s` without white space at either end.
pub fn trim(s: &str) -> (r: String)
    ensures
        r@ == trimmed(s@),
{
    let v = chars_of(s);
    let mut from: usize = 0;
    assert(v@.skip(0) == v@);
    while from < v.len() && char_is_space(v[from])
        invariant
            from <= v@.len(),
            trimmed_start(v@) == trimmed_start(v@.skip(from as int)),
        decreases v@.len() - from,
    {
        assert(v@.skip(from as int).skip(1) == v@.skip(from + 1));
        from += 1;
    }
    let mut to: usize = v.len();
    assert(v@.subrange(from as int, to as int) == v@.skip(from as int));
    while from < to && char_is_space(v[to - 1])
        invariant
            from <= to <= v@.len(),
            trimmed(v@) == trimmed_end(v@.subrange(from as int, to as int)),
        decreases to,
    {
        assert(v@.subrange(from as int, to as int).drop_last() == v@.subrange(
            from as int,
            to - 1,
        ));
        to -= 1;
    }
    string_of(&v, from, to)
}

/// `s` without the run of `c` at its end.
pub fn trim_end_matches(s: &str, c: char) -> (r: String)
    ensures
        r@ == without_trailing(s@, c),
{
    let v = chars_of(s);
    let mut to: usize = v.len();
    assert(v@.subrange(0, to as int) == v@);
    while 0 < to && v[to - 1] == c
        invariant
            to <= v@.len(),
            without_trailing(v@, c) == without_trailing(v@.subrange(0, to as int), c),
        decreases to,
    {
        assert(v@.subrange(0, to as int).drop_last() == v@.subrange(0, to - 1));
        to -= 1;
    }
    string_of(&v, 0, to)
}

/// `s` with every `from` turned into `to`.
pub fn replace_char(s: &str, from: char, to: char) -> (r: String)
    ensures
        r@ == replaced(s@, from, to),
{
    let mut r = String::new();
    for c in it: s.chars()
        invariant
            it.seq() == s@,
            r@ == replaced(s@.take(it.index() as int), from, to),
    {
        if c == from {
            r.push(to);
        } else {
            r.push(c);
        }
        assert(r@ == replaced(s@.take(it.index() + 1), from, to));
    }
    assert(s@.take(s@.len() as int) == s@);
    r
}

/// Whether `s` begins with `p`.
pub fn starts_with(s: &str, p: &str) -> (r: bool)
    ensures
        r == p@.is_prefix_of(s@),
{
    let v = chars_of(s);
    let w = chars_of(p);
    if w.len() > v.len() {
        return false;
    }
    let mut i: usize = 0;
    while i < w.len()
        invariant
            v@ == s@,
            w@ == p@,
            i <= w@.len() <= v@.len(),
            forall|k: int| 0 <= k < i ==> v@[k] == w@[k],
        decreases w@.len() - i,
    {
        if v[i] != w[i] {
            assert(v@.subrange(0, w@.len() as int)[i as int] == v@[i as int]);
            return false;
        }
        i += 1;
    }
    assert(w@ == v@.subrange(0, w@.len() as int));
    true
}

/// Whether `s` ends with `p`.
pub fn ends_with(s: &str, p: &str) -> (r: bool)
    ensures
        r == p@.is_suffix_of(s@),
{
    let v = chars_of(s);
    let w = chars_of(p);
    if w.len() > v.len() {
        return false;
    }
    let off: usize = v.len() - w.len();
    let mut i: usize = 0;
    while i < w.len()
        invariant
            v@ == s@,
            w@ == p@,
            i <= w@.len() <= v.len(),
            off == v@.len() - w@.len(),
            forall|k: int| 0 <= k < i ==> v@[off + k] == w@[k],
        decreases w@.len() - i,
    {
        if v[off + i] != w[i] {
            assert(v@.subrange(off as int, v@.len() as int)[i as int] == v@[off + i]);
            return false;
        }
        i += 1;
    }
    assert(w@ == v@.subrange(off as int, v@.len() as int));
    true
}

/// The non-empty pieces of `s` between its separators.
fn split_non_empty(s: &str, at: Option<char>) -> (parts: Vec<String>)
    ensures
        texts(parts@) == non_empty(split_by(s@, separates(at))),
{
    let mut parts: Vec<String> = Vec::new();
    let mut cur = String::new();
    for c in it: s.chars()
        invariant
            it.seq() == s@,
            split_by(s@.take(it.index() as int), separates(at)).len() > 0,
            cur@ == split_by(s@.take(it.index() as int), separates(at)).last(),
            texts(parts@) == non_empty(
                split_by(s@.take(it.index() as int), separates(at)).drop_last(),
            ),
    {
        let ghost upto = s@.take(it.index() + 1);
        let ghost before = split_by(s@.take(it.index() as int), separates(at));
        let ghost after = split_by(upto, separates(at));
        assert(upto.drop_last() == s@.take(it.index() as int));
        assert(upto.last() == c);
        let sep = match at {
            Some(x) => c == x,
            None => char_is_space(c),
        };
        if sep {
            assert(after.drop_last() == before);
            if !cur.as_str().is_empty() {
                let ghost old = texts(parts@);
                parts.push(cur);
                assert(texts(parts@) == old.push(before.last()));
            }
            cur = String::new();
        } else {
            assert(after.drop_last() == before.drop_last());
            cur.push(c);
        }
    }
    assert(s@.take(s@.len() as int) == s@);
    if !cur.as_str().is_empty() {
        let ghost old = texts(parts@);
        parts.push(cur);
        assert(texts(parts@) == old.push(cur@));
    }
    parts
}

/// The non-empty pieces of `s` between occurrences of `c`.
pub fn pieces_of(s: &str, c: char) -> (parts: Vec<String>)
    ensures
        texts(parts@) == pieces(s@, c),
{
    split_non_empty(s, Some(c))
}

/// The maximal runs of non-space characters of `s`.
pub fn words_of(s: &str) -> (parts: Vec<String>)
    ensures
        texts(parts@) == words(s@),
{
    split_non_empty(s, None)
}

/// `parts` with `sep` between neighbours.
pub fn join(parts: &Vec<String>, from: usize, sep: &str) -> (r: String)
    requires
        from <= parts@.len(),
    ensures
        r@ == joined(texts(parts@).skip(from as int), sep@),
{
    let mut r = String::new();
    let mut i: usize = from;
    let ghost all = texts(parts@).skip(from as int);
    while i < parts.len()
        invariant
            from <= i <= parts@.len(),
            all == texts(parts@).skip(from as int),
            r@ == joined(all.take(i - from), sep@),
        decreases parts@.len() - i,
    {
        let ghost upto = all.take(i + 1 - from);
        assert(upto.drop_last() == all.take(i - from));
        assert(upto.last() == parts@[i as int]@);
        if i > from {
            r.append(sep);
        }
        r.append(parts[i].as_str());
        assert(r@ == joined(upto, sep@));
        i += 1;
    }
    assert(all.take(all.len() as int) == all);
    r
}

/// The digit `d` as a character.
fn digit_char(d: u8) -> (c: char)
    requires
        d < 10,
    ensures
        c == digit(d as nat),
{
    (48 + d) as char
}

/// `n` in decimal.
pub fn decimal_of(n: u64) -> (r: String)
    ensures
        r@ == decimal(n as nat),
    decreases n,
{
    let mut r = if n < 10 {
        String::new()
    } else {
        decimal_of(n / 10)
    };
    r.push(digit_char((n % 10) as u8));
    r
}

/// `n` in decimal, with a leading zero if it has one digit.
pub fn two_digits_of(n: u64) -> (r: String)
    ensures
        r@ == two_digits(n as nat),
{
    let d = decimal_of(n);
    if n < 10 {
        let mut r = String::new();
        r.push('0');
        r.append(d.as_str());
        assert(r@ == seq!['0'] + d@);
        r
    } else {
        d
    }
}

// ---------------------------------------------------------------------------------------------
// Laws
// ---------------------------------------------------------------------------------------------

proof fn lemma_trimmed_start(s: Seq<char>)
    ensures
        trimmed_start(s).len() > 0 ==> !is_space(trimmed_start(s)[0]),
        trimmed_start(s).len() <= s.len(),
        trimmed_start(s) == s.skip(s.len() - trimmed_start(s).len()),
    decreases s.len(),
{
    if s.len() > 0 && is_space(s[0]) {
        lemma_trimmed_start(s.skip(1));
        let r = trimmed_start(s);
        assert(s.skip(1).skip(s.len() - 1 - r.len()) =~= s.skip(s.len() - r.len()));
    } else {
        assert(s.skip(0) =~= s);
    }
}

proof fn lemma_trimmed_end(s: Seq<char>)
    ensures
        trimmed_end(s).len() > 0 ==> !is_space(trimmed_end(s).last()),
        trimmed_end(s).len() <= s.len(),
        trimmed_end(s) == s.take(trimmed_end(s).len() as int),
    decreases s.len(),
{
    if s.len() > 0 && is_space(s.last()) {
        lemma_trimmed_end(s.drop_last());
        let r = trimmed_end(s);
        assert(s.drop_last().take(r.len() as int) =~= s.take(r.len() as int));
    } else {
        assert(s.take(s.len() as int) =~= s);
    }
}

/// A trimmed text has no white space at its ends, and trimming it again changes nothing.
pub proof fn law_trim_settles(s: Seq<char>)
    ensures
        trimmed(s).len() > 0 ==> !is_space(trimmed(s)[0]) && !is_space(trimmed(s).last()),
        trimmed(trimmed(s)) == trimmed(s),
{
    lemma_trimmed_start(s);
    lemma_trimmed_end(trimmed_start(s));
}

proof fn lemma_split_some(s: Seq<char>, sep: spec_fn(char) -> bool)
    ensures
        split_by(s, sep).len() > 0,
    decreases s.len(),
{
    if s.len() > 0 {
        lemma_split_some(s.drop_last(), sep);
    }
}

proof fn lemma_split_append(s: Seq<char>, p: Seq<char>, sep: spec_fn(char) -> bool)
    requires
        forall|i: int| 0 <= i < p.len() ==> !sep(#[trigger] p[i]),
    ensures
        split_by(s + p, sep) == split_by(s, sep).drop_last().push(split_by(s, sep).last() + p),
    decreases p.len(),
{
    lemma_split_some(s, sep);
    if p.len() == 0 {
        assert(s + p =~= s);
        assert(split_by(s, sep).last() + p =~= split_by(s, sep).last());
        assert(split_by(s, sep).drop_last().push(split_by(s, sep).last()) =~= split_by(s, sep));
    } else {
        let q = p.drop_last();
        lemma_split_append(s, q, sep);
        assert((s + p).drop_last() =~= s + q);
        assert((s + p).last() == p.last());
        let before = split_by(s + q, sep);
        assert(before.drop_last() =~= split_by(s, sep).drop_last());
        assert(before.last().push(p.last()) =~= split_by(s, sep).last() + p);
    }
}

/// Splitting undoes joining: behind a leading separator, the pieces of a joined list are the
/// members of the list, if none of them is empty or holds the separator.
pub proof fn law_pieces_of_joined(parts: Seq<Seq<char>>, c: char)
    requires
        forall|i: int| 0 <= i < parts.len() ==> (#[trigger] parts[i]).len() > 0,
        forall|i: int| 0 <= i < parts.len() ==> !(#[trigger] parts[i]).contains(c),
    ensures
        pieces(seq![c] + joined(parts, seq![c]), c) == parts,
    decreases parts.len(),
{
    let sep = separates(Some(c));
    let head = seq![c];
    assert(head.drop_last() =~= Seq::<char>::empty());
    assert(split_by(Seq::<char>::empty(), sep) =~= seq![Seq::<char>::empty()]);
    assert(split_by(head, sep) =~= seq![Seq::<char>::empty(), Seq::<char>::empty()]);
    if parts.len() == 0 {
        assert(head + joined(parts, head) =~= head);
        reveal_with_fuel(non_empty, 3);
        assert(pieces(head, c) =~= parts);
    } else {
        let init = parts.drop_last();
        let last = parts.last();
        assert forall|i: int| 0 <= i < last.len() implies !sep(#[trigger] last[i]) by {
            assert(!parts[parts.len() - 1].contains(c));
        }
        if parts.len() == 1 {
            assert(head + joined(parts, head) =~= head + last);
            lemma_split_append(head, last, sep);
            assert(Seq::<char>::empty() + last =~= last);
            let all = split_by(head + last, sep);
            assert(all =~= seq![Seq::<char>::empty(), last]);
            assert(all.drop_last() =~= seq![Seq::<char>::empty()]);
            reveal_with_fuel(non_empty, 3);
            assert(pieces(head + last, c) =~= parts);
        } else {
            assert forall|i: int| 0 <= i < init.len() implies (#[trigger] init[i]).len() > 0 by {
                assert(parts[i].len() > 0);
            }
            assert forall|i: int| 0 <= i < init.len() implies !(#[trigger] init[i]).contains(c) by {
                assert(!parts[i].contains(c));
            }
            law_pieces_of_joined(init, c);
            let s0 = head + joined(init, head);
            let s1 = s0 + head;
            assert(head + joined(parts, head) =~= s1 + last);
            assert(s1.drop_last() =~= s0);
            lemma_split_append(s1, last, sep);
            assert(Seq::<char>::empty() + last =~= last);
            assert(split_by(s1 + last, sep) =~= split_by(s0, sep).push(last));
            assert(split_by(s1 + last, sep).drop_last() =~= split_by(s0, sep));
            assert(pieces(s1 + last, c) =~= init.push(last));
            assert(init.push(last) =~= parts);
        }
    }
}

proof fn lemma_split_clean(s: Seq<char>, sep: spec_fn(char) -> bool)
    ensures
        forall|i: int, j: int|
            0 <= i < split_by(s, sep).len() && 0 <= j < split_by(s, sep)[i].len() ==> !sep(
                #[trigger] split_by(s, sep)[i][j],
            ),
    decreases s.len(),
{
    if s.len() > 0 {
        lemma_split_some(s.drop_last(), sep);
        lemma_split_clean(s.drop_last(), sep);
    }
}

proof fn lemma_non_empty_members(parts: Seq<Seq<char>>, i: int)
    requires
        0 <= i < non_empty(parts).len(),
    ensures
        non_empty(parts)[i].len() > 0,
        parts.contains(non_empty(parts)[i]),
    decreases parts.len(),
{
    let less = parts.drop_last();
    if i < non_empty(less).len() {
        lemma_non_empty_members(less, i);
        let k = choose|k: int| 0 <= k < less.len() && less[k] == non_empty(less)[i];
        assert(parts[k] == non_empty(parts)[i]);
    } else {
        assert(parts[parts.len() - 1] == non_empty(parts)[i]);
    }
}

/// No piece is empty, and none holds the separator.
pub proof fn law_pieces_clean(s: Seq<char>, c: char, i: int)
    requires
        0 <= i < pieces(s, c).len(),
    ensures
        pieces(s, c)[i].len() > 0,
        !pieces(s, c)[i].contains(c),
{
    let all = split_by(s, separates(Some(c)));
    lemma_split_clean(s, separates(Some(c)));
    lemma_non_empty_members(all, i);
    let p = pieces(s, c)[i];
    let k = choose|k: int| 0 <= k < all.len() && all[k] == p;
    assert forall|j: int| 0 <= j < p.len() implies p[j] != c by {
        assert(!separates(Some(c))(all[k][j]));
    }
}

/// Two numbers with the same decimal digits are the same number.
pub proof fn law_decimal_unique(a: nat, b: nat)
    requires
        decimal(a) == decimal(b),
    ensures
        a == b,
    decreases a,
{
    lemma_decimal_len(a);
    lemma_decimal_len(b);
    let s = decimal(a);
    assert(s.last() == digit(a % 10));
    assert(s.last() == digit(b % 10));
    if a >= 10 && b >= 10 {
        assert(s.drop_last() =~= decimal(a / 10));
        assert(s.drop_last() =~= decimal(b / 10));
        law_decimal_unique(a / 10, b / 10);
    }
}

proof fn lemma_decimal_len(n: nat)
    ensures
        decimal(n).len() >= 1,
        n >= 10 <==> decimal(n).len() >= 2,
    decreases n,
{
    if n >= 10 {
        lemma_decimal_len(n / 10);
    }
}

/// A string without the separator is its own only piece.
pub proof fn law_single_piece(s: Seq<char>, c: char)
    requires
        s.len() > 0,
        !s.contains(c),
    ensures
        pieces(s, c) == seq![s],
{
    let sep = separates(Some(c));
    let none = Seq::<char>::empty();
    assert forall|i: int| 0 <= i < s.len() implies !sep(#[trigger] s[i]) by {
        assert(s.contains(s[i]));
    }
    assert(split_by(none, sep) =~= seq![none]);
    lemma_split_append(none, s, sep);
    assert(none + s =~= s);
    let all = split_by(s, sep);
    assert(all =~= seq![s]);
    assert(all.drop_last() =~= Seq::<Seq<char>>::empty());
    assert(non_empty(all.drop_last()) =~= Seq::<Seq<char>>::empty());
    assert(pieces(s, c) =~= seq![s]);
}

/// Decimal numbers consist of digits.
pub proof fn law_decimal_digits(n: nat)
    ensures
        forall|i: int| 0 <= i < decimal(n).len() ==> '0' <= #[trigger] decimal(n)[i] <= '9',
    decreases n,
{
    if n >= 10 {
        law_decimal_digits(n / 10);
        let before = decimal(n / 10);
        assert forall|i: int| 0 <= i < decimal(n).len() implies '0' <= #[trigger] decimal(n)[i]
            <= '9' by {
            if i < before.len() {
                assert(decimal(n)[i] == before[i]);
            }
        }
    }
}

/// The number that decimal digits stand for, each worth ten times the next.
pub open spec fn number(s: Seq<char>) -> nat
    decreases s.len(),
{
    if s.len() == 0 {
        0
    } else {
        10 * number(s.drop_last()) + (s.last() as nat - '0' as nat) as nat
    }
}

/// Whether a string is not empty and holds nothing but decimal digits.
pub open spec fn all_digits(s: Seq<char>) -> bool {
    s.len() > 0 && forall|i: int| 0 <= i < s.len() ==> '0' <= #[trigger] s[i] <= '9'
}

/// A number written in decimal reads back as that number. It has no leading zero, unless it is
/// zero.
pub proof fn law_decimal_reads_back(n: nat)
    ensures
        all_digits(decimal(n)),
        number(decimal(n)) == n,
        n > 0 ==> decimal(n)[0] != '0',
        n == 0 ==> decimal(n) == seq!['0'],
    decreases n,
{
    law_decimal_digits(n);
    lemma_decimal_len(n);
    let s = decimal(n);
    if n >= 10 {
        law_decimal_reads_back(n / 10);
        lemma_decimal_len(n / 10);
        assert(s.drop_last() =~= decimal(n / 10));
        assert(s[0] == decimal(n / 10)[0]);
    } else {
        assert(s.drop_last() =~= Seq::<char>::empty());
        assert(number(s.drop_last()) == 0);
    }
}

/// Below a hundred, two digits are two digits that read back as the number.
pub proof fn law_two_digits_read_back(n: nat)
    requires
        n < 100,
    ensures
        two_digits(n).len() == 2,
        all_digits(two_digits(n)),
        number(two_digits(n)) == n,
{
    law_decimal_reads_back(n);
    let s = two_digits(n);
    if n < 10 {
        assert(s.drop_last() =~= seq!['0']);
        assert(seq!['0'].drop_last() =~= Seq::<char>::empty());
        reveal_with_fuel(number, 3);
    } else {
        let tail = decimal(n / 10);
        assert(tail.len() == 1);
    }
}

/// A trimmed text is the text without some white space before and behind it, and has none at its
/// ends.
pub proof fn law_trim_takes_off_white_space(s: Seq<char>)
    ensures
        exists|i: int, j: int|
            #![trigger s.subrange(i, j)]
            {
                &&& 0 <= i <= j <= s.len()
                &&& trimmed(s) == s.subrange(i, j)
                &&& forall|k: int| 0 <= k < i ==> is_space(#[trigger] s[k])
                &&& forall|k: int| j <= k < s.len() ==> is_space(#[trigger] s[k])
                &&& i < j ==> !is_space(s[i]) && !is_space(s[j - 1])
            },
{
    lemma_trimmed_start(s);
    lemma_start_spaces(s);
    let u = trimmed_start(s);
    lemma_trimmed_end(u);
    lemma_end_spaces(u);
    let i = s.len() - u.len();
    let j = i + trimmed(s).len();
    assert(trimmed(s) =~= s.subrange(i, j));
    assert forall|k: int| j <= k < s.len() implies is_space(#[trigger] s[k]) by {
        assert(u[k - i] == s[k]);
    }
}

proof fn lemma_start_spaces(s: Seq<char>)
    ensures
        forall|k: int| 0 <= k < s.len() - trimmed_start(s).len() ==> is_space(#[trigger] s[k]),
    decreases s.len(),
{
    if s.len() > 0 && is_space(s[0]) {
        lemma_start_spaces(s.skip(1));
        assert forall|k: int| 0 <= k < s.len() - trimmed_start(s).len() implies is_space(
            #[trigger] s[k],
        ) by {
            if k > 0 {
                assert(s.skip(1)[k - 1] == s[k]);
            }
        }
    }
}

proof fn lemma_end_spaces(s: Seq<char>)
    ensures
        forall|k: int| trimmed_end(s).len() <= k < s.len() ==> is_space(#[trigger] s[k]),
    decreases s.len(),
{
    if s.len() > 0 && is_space(s.last()) {
        lemma_end_spaces(s.drop_last());
        assert forall|k: int| trimmed_end(s).len() <= k < s.len() implies is_space(
            #[trigger] s[k],
        ) by {
            if k < s.len() - 1 {
                assert(s.drop_last()[k] == s[k]);
            }
        }
    }
}

/// A string without trailing `c` is the string up to its last character other than `c`.
pub proof fn law_trailing_is_taken_off(s: Seq<char>, c: char)
    ensures
        ({
            let r = without_trailing(s, c);
            &&& r.len() <= s.len()
            &&& r == s.take(r.len() as int)
            &&& forall|k: int| r.len() <= k < s.len() ==> #[trigger] s[k] == c
            &&& r.len() > 0 ==> r.last() != c
        }),
    decreases s.len(),
{
    let r = without_trailing(s, c);
    if s.len() > 0 && s.last() == c {
        law_trailing_is_taken_off(s.drop_last(), c);
        assert(r =~= s.take(r.len() as int));
        assert forall|k: int| r.len() <= k < s.len() implies #[trigger] s[k] == c by {
            if k < s.len() - 1 {
                assert(s.drop_last()[k] == s[k]);
            }
        }
    } else {
        assert(s.take(s.len() as int) =~= s);
    }
}

/// A replacement touches the replaced character alone.
pub proof fn law_replacement_is_exact(s: Seq<char>, from: char, to: char, i: int)
    requires
        0 <= i < s.len(),
    ensures
        replaced(s, from, to).len() == s.len(),
        s[i] == from ==> replaced(s, from, to)[i] == to,
        s[i] != from ==> replaced(s, from, to)[i] == s[i],
{
}

proof fn lemma_split_at(a: Seq<char>, x: char, b: Seq<char>, sep: spec_fn(char) -> bool)
    requires
        sep(x),
    ensures
        split_by(a + seq![x] + b, sep) == split_by(a, sep) + split_by(b, sep),
    decreases b.len(),
{
    let whole = a + seq![x] + b;
    lemma_split_some(a, sep);
    lemma_split_some(b, sep);
    if b.len() == 0 {
        assert(whole.drop_last() =~= a);
        assert(whole.last() == x);
        assert(split_by(b, sep) =~= seq![Seq::<char>::empty()]);
        assert(split_by(whole, sep) =~= split_by(a, sep) + split_by(b, sep));
    } else {
        let less = b.drop_last();
        lemma_split_at(a, x, less, sep);
        lemma_split_some(less, sep);
        assert(whole.drop_last() =~= a + seq![x] + less);
        assert(whole.last() == b.last());
        let before = split_by(a, sep) + split_by(less, sep);
        assert(before.last() == split_by(less, sep).last());
        assert(before.drop_last() =~= split_by(a, sep) + split_by(less, sep).drop_last());
        assert(split_by(whole, sep) =~= split_by(a, sep) + split_by(b, sep));
    }
}

proof fn lemma_non_empty_add(a: Seq<Seq<char>>, b: Seq<Seq<char>>)
    ensures
        non_empty(a + b) == non_empty(a) + non_empty(b),
    decreases b.len(),
{
    if b.len() == 0 {
        assert(a + b =~= a);
        assert(non_empty(a) + non_empty(b) =~= non_empty(a));
    } else {
        lemma_non_empty_add(a, b.drop_last());
        assert((a + b).drop_last() =~= a + b.drop_last());
        assert((a + b).last() == b.last());
        assert(non_empty(a + b) =~= non_empty(a) + non_empty(b));
    }
}

/// At a separator the pieces of a string fall into those before and those behind it. With this and
/// what is said of strings without a separator, the pieces of every string are known.
pub proof fn law_pieces_fall_apart(a: Seq<char>, c: char, b: Seq<char>)
    ensures
        pieces(a + seq![c] + b, c) == pieces(a, c) + pieces(b, c),
        pieces(Seq::<char>::empty(), c) == Seq::<Seq<char>>::empty(),
{
    let sep = separates(Some(c));
    lemma_split_at(a, c, b, sep);
    lemma_non_empty_add(split_by(a, sep), split_by(b, sep));
    let none = split_by(Seq::<char>::empty(), sep);
    assert(none.drop_last() =~= Seq::<Seq<char>>::empty());
    assert(non_empty(none.drop_last()) =~= Seq::<Seq<char>>::empty());
    assert(pieces(Seq::<char>::empty(), c) =~= Seq::<Seq<char>>::empty());
}

/// At white space the words of a string fall into those before and those behind it; a string
/// without white space is its own only word, and nothing has no words.
pub proof fn law_words_fall_apart(a: Seq<char>, space: char, b: Seq<char>, word: Seq<char>)
    requires
        is_space(space),
        word.len() > 0,
        forall|i: int| 0 <= i < word.len() ==> !is_space(#[trigger] word[i]),
    ensures
        words(a + seq![space] + b) == words(a) + words(b),
        words(word) == seq![word],
        words(Seq::<char>::empty()) == Seq::<Seq<char>>::empty(),
{
    let sep = separates(None);
    lemma_split_at(a, space, b, sep);
    lemma_non_empty_add(split_by(a, sep), split_by(b, sep));
    let nothing = Seq::<char>::empty();
    let none = split_by(nothing, sep);
    assert(none.drop_last() =~= Seq::<Seq<char>>::empty());
    assert(non_empty(none.drop_last()) =~= Seq::<Seq<char>>::empty());
    assert(words(nothing) =~= Seq::<Seq<char>>::empty());
    assert(none =~= seq![nothing]);
    lemma_split_append(nothing, word, sep);
    assert(nothing + word =~= word);
    let all = split_by(word, sep);
    assert(all =~= seq![word]);
    assert(all.drop_last() =~= Seq::<Seq<char>>::empty());
    assert(words(word) =~= seq![word]);
}

/// Joining puts the separator between neighbours, and nowhere else.
pub proof fn law_joining(parts: Seq<Seq<char>>, more: Seq<char>, sep: Seq<char>)
    ensures
        joined(Seq::<Seq<char>>::empty(), sep) == Seq::<char>::empty(),
        joined(seq![more], sep) == more,
        parts.len() > 0 ==> joined(parts.push(more), sep) == joined(parts, sep) + sep + more,
{
    assert(parts.push(more).drop_last() =~= parts);
}

/// Blanks, tabulators and the ends of lines are white space; no letter, digit or sign of ASCII is.
pub proof fn law_white_space_of_ascii(c: char)
    ensures
        is_space(' ') && is_space('\t') && is_space('\n') && is_space('\r'),
        '!' <= c <= '~' ==> !is_space(c),
{
}

} // verus!
