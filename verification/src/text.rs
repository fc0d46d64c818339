//! Character-level text helpers: conversions between `str` and characters,
//! the code-point order of strings, and decimal and hexadecimal rendering.
use vstd::prelude::*;

verus! {

/// `String::push`: appends one character.
#[verifier::external_body]
pub(crate) fn push_char(s: &mut String, c: char)
    ensures
        final(s)@ == old(s)@.push(c),
{
    s.push(c)
}

/// The characters of `s`, in order.
pub fn chars_of(s: &str) -> (r: Vec<char>)
    ensures
        r@ == s@,
{
    let mut r: Vec<char> = Vec::new();
    for c in it: s.chars()
        invariant
            r@ == it.seq().take(it.index() as int),
            it.seq() == s@,
    {
        r.push(c);
    }
    r
}


/// The string made of the characters of `v`.
pub fn string_of(v: &Vec<char>) -> (r: String)
    ensures
        r@ == v@,
{
    let mut r = String::new();
    let mut i: usize = 0;
    while i < v.len()
        invariant
            i <= v.len(),
            r@ == v@.take(i as int),
        decreases v.len() - i,
    {
        push_char(&mut r, v[i]);
        assert(v@.take(i + 1) == v@.take(i as int).push(v@[i as int]));
        i = i + 1;
    }
    assert(v@.take(v.len() as int) == v@);
    r
}

/// Appends the characters of `t` to `s`.
pub fn push_str(s: &mut String, t: &str)
    ensures
        final(s)@ == old(s)@ + t@,
{
    let cs = chars_of(t);
    let mut i: usize = 0;
    while i < cs.len()
        invariant
            i <= cs.len(),
            cs@ == t@,
            s@ == old(s)@ + t@.take(i as int),
        decreases cs.len() - i,
    {
        push_char(s, cs[i]);
        assert(t@.take(i + 1) == t@.take(i as int).push(t@[i as int]));
        i = i + 1;
    }
    assert(t@.take(cs.len() as int) == t@);
}

/// The code-point order of character sequences, which is also the byte order
/// of their UTF-8 encodings, and the order of Rust's `str`.
pub open spec fn seq_lt(a: Seq<char>, b: Seq<char>) -> bool
    decreases a.len(),
{
    if a.len() == 0 {
        b.len() > 0
    } else if b.len() == 0 {
        false
    } else if a[0] != b[0] {
        a[0] < b[0]
    } else {
        seq_lt(a.drop_first(), b.drop_first())
    }
}

/// No sequence precedes itself.
pub proof fn lemma_seq_lt_irreflexive(a: Seq<char>)
    ensures
        !seq_lt(a, a),
    decreases a.len(),
{
    if a.len() > 0 {
        lemma_seq_lt_irreflexive(a.drop_first());
    }
}

/// The order is transitive.
pub proof fn lemma_seq_lt_transitive(a: Seq<char>, b: Seq<char>, c: Seq<char>)
    requires
        seq_lt(a, b),
        seq_lt(b, c),
    ensures
        seq_lt(a, c),
    decreases a.len(),
{
    if a.len() > 0 && b.len() > 0 && c.len() > 0 && a[0] == b[0] && b[0] == c[0] {
        lemma_seq_lt_transitive(a.drop_first(), b.drop_first(), c.drop_first());
    }
}

/// Two different sequences are ordered one way or the other.
pub proof fn lemma_seq_lt_total(a: Seq<char>, b: Seq<char>)
    ensures
        a == b || seq_lt(a, b) || seq_lt(b, a),
    decreases a.len(),
{
    if a.len() > 0 && b.len() > 0 && a[0] == b[0] {
        lemma_seq_lt_total(a.drop_first(), b.drop_first());
        if a.drop_first() == b.drop_first() {
            assert(a == seq![a[0]] + a.drop_first());
            assert(b == seq![b[0]] + b.drop_first());
        }
    } else if a.len() == 0 && b.len() == 0 {
        assert(a == b);
    }
}

/// Whether `a` comes strictly before `b` in code-point order.
pub fn str_less(a: &str, b: &str) -> (r: bool)
    ensures
        r == seq_lt(a@, b@),
{
    let x = chars_of(a);
    let y = chars_of(b);
    let mut i: usize = 0;
    assert(a@.skip(0) == a@ && b@.skip(0) == b@);
    while i < x.len() && i < y.len() && x[i] == y[i]
        invariant
            x@ == a@,
            y@ == b@,
            i <= x.len(),
            i <= y.len(),
            seq_lt(a@, b@) == seq_lt(a@.skip(i as int), b@.skip(i as int)),
        decreases x.len() - i,
    {
        assert(a@.skip(i as int).drop_first() == a@.skip(i + 1));
        assert(b@.skip(i as int).drop_first() == b@.skip(i + 1));
        i = i + 1;
    }
    if i == x.len() {
        i < y.len()
    } else if i == y.len() {
        false
    } else {
        x[i] < y[i]
    }
}


/// The digit character for `d` (`0`-`9`, then lower-case `a`-`f`).
pub open spec fn digit_char(d: nat) -> char {
    if d < 10 {
        (d + 48) as char
    } else {
        (d + 87) as char
    }
}

/// The digits of `n` in base 16 when `hex`, else base 10, without leading zeros
/// (`0` for zero): what `{}` and `{:x}` print for an unsigned integer.
pub open spec fn radix_text(n: nat, hex: bool) -> Seq<char>
    decreases n,
{
    let r: nat = if hex { 16 } else { 10 };
    if n < r {
        seq![digit_char(n)]
    } else {
        radix_text(n / r, hex).push(digit_char(n % r))
    }
}

/// What `{}` prints for an integer.
pub open spec fn int_text(i: int) -> Seq<char> {
    if i < 0 {
        seq!['-'] + radix_text((-i) as nat, false)
    } else {
        radix_text(i as nat, false)
    }
}

/// Two lower-case hexadecimal digits of a byte, what `{:02x}` prints.
pub open spec fn byte_hex(b: u8) -> Seq<char> {
    seq![digit_char((b / 16) as nat), digit_char((b % 16) as nat)]
}

/// The lower-case hexadecimal text of a byte sequence, two digits per byte.
pub open spec fn bytes_hex(bs: Seq<u8>) -> Seq<char>
    decreases bs.len(),
{
    if bs.len() == 0 {
        Seq::empty()
    } else {
        bytes_hex(bs.drop_last()) + byte_hex(bs.last())
    }
}

/// The digit character for `d`.
pub fn digit_of(d: u128) -> (c: char)
    requires
        d < 16,
    ensures
        c == digit_char(d as nat),
{
    let b: u8 = d as u8;
    if b < 10 {
        (b + 48) as char
    } else {
        (b + 87) as char
    }
}

/// The digits of `n` in base 16 when `hex`, else base 10.
pub fn radix_chars(n: u128, hex: bool) -> (r: Vec<char>)
    ensures
        r@ == radix_text(n as nat, hex),
{
    let base: u128 = if hex { 16 } else { 10 };
    let mut m: u128 = n;
    let mut suffix: Vec<char> = Vec::new();
    while m >= base
        invariant
            base == (if hex { 16u128 } else { 10u128 }),
            radix_text(n as nat, hex) == radix_text(m as nat, hex) + suffix@,
        decreases m,
    {
        let d = digit_of(m % base);
        let ghost old_suffix = suffix@;
        suffix.insert(0, d);
        assert(radix_text(m as nat, hex) == radix_text((m / base) as nat, hex).push(d));
        assert(radix_text((m / base) as nat, hex).push(d) + old_suffix
            == radix_text((m / base) as nat, hex) + suffix@);
        m = m / base;
    }
    let d = digit_of(m);
    suffix.insert(0, d);
    suffix
}

/// What `{}` prints for an `i128`.
pub fn int_to_string(i: i128) -> (r: String)
    ensures
        r@ == int_text(i as int),
{
    if i < 0 {
        let mag: u128 = (-(i + 1)) as u128 + 1;
        let mut r = String::new();
        push_char(&mut r, '-');
        let ds = radix_chars(mag, false);
        let t = string_of(&ds);
        push_str(&mut r, t.as_str());
        r
    } else {
        let ds = radix_chars(i as u128, false);
        string_of(&ds)
    }
}

/// What `{:x}` prints for a `u128`.
pub fn hex_to_string(n: u128) -> (r: String)
    ensures
        r@ == radix_text(n as nat, true),
{
    let ds = radix_chars(n, true);
    string_of(&ds)
}

/// The lower-case hexadecimal text of `bs`, two digits per byte: what `{:x}`
/// prints for an md5 digest.
pub fn bytes_to_hex(bs: &[u8]) -> (r: String)
    ensures
        r@ == bytes_hex(bs@),
{
    let mut r = String::new();
    let mut i: usize = 0;
    while i < bs.len()
        invariant
            i <= bs.len(),
            r@ == bytes_hex(bs@.take(i as int)),
        decreases bs.len() - i,
    {
        let b = bs[i];
        push_char(&mut r, digit_of((b / 16) as u128));
        push_char(&mut r, digit_of((b % 16) as u128));
        assert(bs@.take(i + 1).drop_last() == bs@.take(i as int));
        i = i + 1;
    }
    assert(bs@.take(bs.len() as int) == bs@);
    r
}

/// `parts` with `sep` between each two.
pub open spec fn join(parts: Seq<Seq<char>>, sep: Seq<char>) -> Seq<char>
    decreases parts.len(),
{
    if parts.len() == 0 {
        Seq::empty()
    } else if parts.len() == 1 {
        parts[0]
    } else {
        join(parts.drop_last(), sep) + sep + parts.last()
    }
}

/// One more part on a join.
pub proof fn lemma_join_step(parts: Seq<Seq<char>>, sep: Seq<char>, i: int)
    requires
        0 < i < parts.len(),
    ensures
        join(parts.take(i + 1), sep) == join(parts.take(i), sep) + sep + parts[i],
{
    assert(parts.take(i + 1).drop_last() =~= parts.take(i));
}

/// The texts of `parts` with `sep` between each two.
pub fn join_strings(parts: &Vec<String>, sep: &str) -> (r: String)
    ensures
        r@ == join(Seq::new(parts@.len(), |i: int| parts@[i]@), sep@),
{
    let ghost ps = Seq::new(parts@.len(), |i: int| parts@[i]@);
    let mut r = String::new();
    let mut i: usize = 0;
    while i < parts.len()
        invariant
            ps == Seq::new(parts@.len(), |i: int| parts@[i]@),
            i <= parts.len(),
            r@ == join(ps.take(i as int), sep@),
        decreases parts.len() - i,
    {
        if i > 0 {
            push_str(&mut r, sep);
            proof {
                lemma_join_step(ps, sep@, i as int);
            }
        } else {
            assert(ps.take(1) =~= seq![ps[0]]);
            assert(r@ =~= Seq::<char>::empty());
        }
        push_str(&mut r, parts[i].as_str());
        i = i + 1;
    }
    assert(ps.take(parts.len() as int) =~= ps);
    r
}


/// The pieces of `s` between the occurrences of `c`, what `str::split` with a
/// character gives: one piece more than there are occurrences.
pub open spec fn split_on(s: Seq<char>, c: char) -> Seq<Seq<char>>
    decreases s.len(),
{
    if s.len() == 0 {
        seq![Seq::empty()]
    } else {
        let p = split_on(s.drop_last(), c);
        if s.last() == c {
            p.push(Seq::empty())
        } else {
            p.update(p.len() - 1, p.last().push(s.last()))
        }
    }
}

pub proof fn lemma_split_nonempty(s: Seq<char>, c: char)
    ensures
        split_on(s, c).len() >= 1,
    decreases s.len(),
{
    if s.len() > 0 {
        lemma_split_nonempty(s.drop_last(), c);
    }
}

/// Splitting two texts joined by the separator gives the pieces of the
/// first, then the pieces of the second.
pub proof fn lemma_split_join(a: Seq<char>, b: Seq<char>, c: char)
    ensures
        split_on(a + seq![c] + b, c) == split_on(a, c) + split_on(b, c),
    decreases b.len(),
{
    let s = a + seq![c] + b;
    if b.len() == 0 {
        assert(s.drop_last() =~= a);
        assert(split_on(a, c) + split_on(b, c) =~= split_on(a, c).push(Seq::empty()));
    } else {
        let b1 = b.drop_last();
        assert(s.drop_last() =~= a + seq![c] + b1);
        lemma_split_join(a, b1, c);
        lemma_split_nonempty(b1, c);
        let pa = split_on(a, c);
        let pb = split_on(b1, c);
        if b.last() == c {
            assert((pa + pb).push(Seq::empty()) =~= pa + pb.push(Seq::empty()));
        } else {
            let p = pa + pb;
            assert(p.update(p.len() - 1, p.last().push(b.last())) =~= pa + pb.update(
                pb.len() - 1,
                pb.last().push(b.last()),
            ));
        }
    }
}

/// A text without the separator is one piece.
pub proof fn lemma_split_single(a: Seq<char>, c: char)
    requires
        !a.contains(c),
    ensures
        split_on(a, c) == seq![a],
    decreases a.len(),
{
    if a.len() > 0 {
        let a1 = a.drop_last();
        assert(!a1.contains(c)) by {
            if a1.contains(c) {
                let i = choose|i: int| 0 <= i < a1.len() && a1[i] == c;
                assert(a[i] == c);
            }
        }
        lemma_split_single(a1, c);
        assert(a.last() != c) by {
            assert(a[a.len() - 1] == a.last());
        }
        assert(a1.push(a.last()) =~= a);
        assert(seq![a1].update(0, a1.push(a.last())) =~= seq![a]);
    } else {
        assert(a =~= Seq::<char>::empty());
    }
}

/// The pieces of `s` between the occurrences of `c`.
pub fn split_str(s: &str, c: char) -> (r: Vec<String>)
    ensures
        Seq::new(r@.len(), |i: int| r@[i]@) == split_on(s@, c),
{
    let cs = chars_of(s);
    let mut done: Vec<String> = Vec::new();
    let mut cur: Vec<char> = Vec::new();
    let mut i: usize = 0;
    while i < cs.len()
        invariant
            cs@ == s@,
            i <= cs.len(),
            Seq::new(done@.len(), |j: int| done@[j]@).push(cur@) == split_on(s@.take(i as int), c),
        decreases cs.len() - i,
    {
        let ghost prev = Seq::new(done@.len(), |j: int| done@[j]@);
        assert(s@.take(i + 1).drop_last() =~= s@.take(i as int));
        proof {
            lemma_split_nonempty(s@.take(i as int), c);
        }
        if cs[i] == c {
            let piece = string_of(&cur);
            done.push(piece);
            cur = Vec::new();
            assert(Seq::new(done@.len(), |j: int| done@[j]@) =~= prev.push(piece@));
            assert(Seq::new(done@.len(), |j: int| done@[j]@).push(cur@) =~= prev.push(piece@).push(Seq::empty()));
        } else {
            let ghost old_cur = cur@;
            cur.push(cs[i]);
            assert(prev.push(cur@) =~= prev.push(old_cur).update(prev.len() as int, old_cur.push(cs@[i as int])));
        }
        i = i + 1;
    }
    assert(s@.take(cs.len() as int) =~= s@);
    let ghost prev = Seq::new(done@.len(), |j: int| done@[j]@);
    let last = string_of(&cur);
    done.push(last);
    assert(Seq::new(done@.len(), |j: int| done@[j]@) =~= prev.push(cur@));
    done
}

} // verus!
