//! Text helpers on `str` and `String`, stated over sequences of characters.

use vstd::prelude::*;
use vstd::string::*;

verus! {

/// The characters with the Unicode property `White_Space`.
pub open spec fn is_white_space(c: char) -> bool {
    let n = c as u32;
    ||| 0x9 <= n <= 0xd
    ||| n == 0x20
    ||| n == 0x85
    ||| n == 0xa0
    ||| n == 0x1680
    ||| 0x2000 <= n <= 0x200a
    ||| n == 0x2028
    ||| n == 0x2029
    ||| n == 0x202f
    ||| n == 0x205f
    ||| n == 0x3000
}

/// `char::is_whitespace` holds of exactly the characters with the Unicode
/// property `White_Space`.
pub assume_specification[ char::is_whitespace ](c: char) -> (r: bool)
    ensures
        r == is_white_space(c),
;

/// Whether `s` holds nothing but white space.
pub open spec fn is_blank(s: Seq<char>) -> bool {
    forall|i: int| 0 <= i < s.len() ==> is_white_space(#[trigger] s[i])
}

/// `s` without its leading white space.
pub open spec fn trimmed_start(s: Seq<char>) -> Seq<char>
    decreases s.len(),
{
    if s.len() > 0 && is_white_space(s[0]) {
        trimmed_start(s.drop_first())
    } else {
        s
    }
}

/// `s` without its trailing white space.
pub open spec fn trimmed_end(s: Seq<char>) -> Seq<char>
    decreases s.len(),
{
    if s.len() > 0 && is_white_space(s.last()) {
        trimmed_end(s.drop_last())
    } else {
        s
    }
}

/// `s` without the white space at either end.
pub open spec fn trimmed(s: Seq<char>) -> Seq<char> {
    trimmed_end(trimmed_start(s))
}

/// The code of `c`, with ASCII capitals taken as small letters.
pub open spec fn folded_code(c: char) -> u32 {
    if 'A' <= c <= 'Z' {
        (c as u32 + 32) as u32
    } else {
        c as u32
    }
}

/// The codes of `s`, with ASCII capitals taken as small letters.
pub open spec fn folded(s: Seq<char>) -> Seq<u32> {
    s.map_values(|c: char| folded_code(c))
}

/// The characters of `s`.
pub(crate) fn chars_of(s: &str) -> (v: Vec<char>)
    ensures
        v@ == s@,
{
    let mut v: Vec<char> = Vec::new();
    for c in it: s.chars()
        invariant
            v@ == it.seq().take(it.index() as int),
            it.seq() == s@,
    {
        v.push(c);
        assert(it.seq().take(it.index() as int + 1) == it.seq().take(it.index() as int).push(c));
    }
    assert(s@.take(s@.len() as int) == s@);
    v
}

proof fn lemma_trimmed_start_skips(s: Seq<char>, n: int)
    requires
        0 <= n <= s.len(),
        forall|i: int| 0 <= i < n ==> is_white_space(#[trigger] s[i]),
    ensures
        trimmed_start(s) == trimmed_start(s.skip(n)),
    decreases n,
{
    if n > 0 {
        assert(is_white_space(s[0]));
        let rest = s.drop_first();
        assert forall|i: int| 0 <= i < n - 1 implies is_white_space(#[trigger] rest[i]) by {
            assert(rest[i] == s[i + 1]);
        }
        lemma_trimmed_start_skips(rest, n - 1);
        assert(rest.skip(n - 1) == s.skip(n));
    } else {
        assert(s.skip(0) == s);
    }
}

proof fn lemma_trimmed_end_takes(s: Seq<char>, n: int)
    requires
        0 <= n <= s.len(),
        forall|i: int| n <= i < s.len() ==> is_white_space(#[trigger] s[i]),
    ensures
        trimmed_end(s) == trimmed_end(s.take(n)),
    decreases s.len() - n,
{
    if n < s.len() {
        assert(is_white_space(s[s.len() - 1]));
        lemma_trimmed_end_takes(s.drop_last(), n);
        assert(s.drop_last().take(n) == s.take(n));
    } else {
        assert(s.take(n) == s);
    }
}

/// `text` without the white space at either end.
pub(crate) fn trim(text: &str) -> (r: &str)
    ensures
        r@ == trimmed(text@),
{
    let v = chars_of(text);
    let mut start: usize = 0;
    while start < v.len() && v[start].is_whitespace()
        invariant
            start <= v.len(),
            forall|i: int| 0 <= i < start ==> is_white_space(#[trigger] v@[i]),
        decreases v.len() - start,
    {
        start = start + 1;
    }
    let mut end: usize = v.len();
    while start < end && v[end - 1].is_whitespace()
        invariant
            start <= end <= v.len(),
            forall|i: int| end <= i < v.len() ==> is_white_space(#[trigger] v@[i]),
        decreases end,
    {
        end = end - 1;
    }
    proof {
        let s = text@;
        lemma_trimmed_start_skips(s, start as int);
        let t = s.skip(start as int);
        assert(trimmed_start(t) == t);
        lemma_trimmed_end_takes(t, end - start);
        assert(t.take(end - start) == s.subrange(start as int, end as int));
        let u = s.subrange(start as int, end as int);
        if u.len() > 0 {
            assert(u.last() == s[end - 1]);
        }
        assert(trimmed_end(u) == u);
    }
    text.substring_char(start, end)
}

pub proof fn lemma_trimmed_blank(s: Seq<char>)
    ensures
        trimmed(s).len() == 0 <==> is_blank(s),
    decreases s.len(),
{
    if s.len() > 0 && is_white_space(s[0]) {
        let rest = s.drop_first();
        lemma_trimmed_blank(rest);
        assert(is_blank(s) ==> is_blank(rest)) by {
            if is_blank(s) {
                assert forall|i: int| 0 <= i < rest.len() implies is_white_space(
                    #[trigger] rest[i],
                ) by {
                    assert(rest[i] == s[i + 1]);
                }
            }
        }
        assert(is_blank(rest) ==> is_blank(s)) by {
            if is_blank(rest) {
                assert forall|i: int| 0 <= i < s.len() implies is_white_space(#[trigger] s[i]) by {
                    if i > 0 {
                        assert(rest[i - 1] == s[i]);
                    }
                }
            }
        }
    } else if s.len() > 0 {
        lemma_trimmed_end_keeps_first(s);
        assert(!is_white_space(s[0]));
    }
}

proof fn lemma_trimmed_end_keeps_first(s: Seq<char>)
    requires
        s.len() > 0,
        !is_white_space(s[0]),
    ensures
        trimmed_end(s).len() > 0,
    decreases s.len(),
{
    if is_white_space(s.last()) {
        lemma_trimmed_end_keeps_first(s.drop_last());
    }
}

/// Whether `text` holds nothing but white space.
pub(crate) fn blank(text: &str) -> (r: bool)
    ensures
        r == is_blank(text@),
{
    let t = trim(text);
    proof {
        lemma_trimmed_blank(text@);
    }
    t.is_empty()
}

fn fold_code(c: char) -> (r: u32)
    ensures
        r == folded_code(c),
{
    let n: u32 = c as u32;
    if 65 <= n && n <= 90 {
        n + 32
    } else {
        n
    }
}

/// Whether two texts agree but for the case of ASCII letters.
pub(crate) fn eq_ignore_ascii_case(a: &str, b: &str) -> (r: bool)
    ensures
        r == (folded(a@) == folded(b@)),
{
    let v = chars_of(a);
    let w = chars_of(b);
    if v.len() != w.len() {
        assert(folded(a@).len() != folded(b@).len());
        return false;
    }
    let mut i: usize = 0;
    while i < v.len()
        invariant
            i <= v.len(),
            v.len() == w.len(),
            v@ == a@,
            w@ == b@,
            forall|j: int| 0 <= j < i ==> folded_code(v@[j]) == folded_code(w@[j]),
        decreases v.len() - i,
    {
        if fold_code(v[i]) != fold_code(w[i]) {
            assert(folded(a@)[i as int] != folded(b@)[i as int]);
            return false;
        }
        i = i + 1;
    }
    assert(folded(a@) =~= folded(b@));
    true
}

/// Whether `text` begins with `prefix`.
pub(crate) fn starts_with(text: &str, prefix: &str) -> (r: bool)
    ensures
        r == prefix@.is_prefix_of(text@),
{
    let v = chars_of(text);
    let p = chars_of(prefix);
    if v.len() < p.len() {
        return false;
    }
    let mut i: usize = 0;
    while i < p.len()
        invariant
            i <= p.len() <= v.len(),
            v@ == text@,
            p@ == prefix@,
            forall|j: int| 0 <= j < i ==> v@[j] == p@[j],
        decreases p.len() - i,
    {
        if v[i] != p[i] {
            assert(text@.subrange(0, p.len() as int)[i as int] != prefix@[i as int]);
            return false;
        }
        i = i + 1;
    }
    assert(prefix@ =~= text@.subrange(0, p.len() as int));
    true
}

/// Whether `a` and `b` agree before position `k` and `a` comes first there:
/// it ends, or holds the smaller character.
pub open spec fn precedes_at(a: Seq<char>, b: Seq<char>, k: int) -> bool {
    &&& 0 <= k <= a.len()
    &&& k < b.len()
    &&& forall|i: int| 0 <= i < k ==> a[i] == #[trigger] b[i]
    &&& k == a.len() || a[k] < b[k]
}

/// Whether `a` stands before `b` in the order of texts by their characters.
pub open spec fn precedes(a: Seq<char>, b: Seq<char>) -> bool {
    exists|k: int| #[trigger] precedes_at(a, b, k)
}

pub proof fn lemma_precedes_irreflexive(a: Seq<char>)
    ensures
        !precedes(a, a),
{
}

pub proof fn lemma_precedes_transitive(a: Seq<char>, b: Seq<char>, c: Seq<char>)
    requires
        precedes(a, b),
        precedes(b, c),
    ensures
        precedes(a, c),
{
    let k = choose|k: int| #[trigger] precedes_at(a, b, k);
    let l = choose|l: int| #[trigger] precedes_at(b, c, l);
    let m = if k < l { k } else { l };
    assert forall|i: int| 0 <= i < m implies a[i] == #[trigger] c[i] by {
        assert(b[i] == c[i]);
        assert(a[i] == b[i]);
    }
    if k < l {
        assert(b[k] == c[k]);
    } else if l < k {
        assert(a[l] == b[l]);
    }
    assert(precedes_at(a, c, m));
}

proof fn lemma_precedes_total_from(a: Seq<char>, b: Seq<char>, k: int)
    requires
        0 <= k <= a.len(),
        k <= b.len(),
        forall|i: int| 0 <= i < k ==> a[i] == #[trigger] b[i],
    ensures
        a == b || precedes(a, b) || precedes(b, a),
    decreases a.len() - k,
{
    if k == a.len() && k == b.len() {
        assert(a =~= b);
    } else if k == a.len() {
        assert(precedes_at(a, b, k));
    } else if k == b.len() {
        assert(precedes_at(b, a, k));
    } else if a[k] < b[k] {
        assert(precedes_at(a, b, k));
    } else if b[k] < a[k] {
        assert(precedes_at(b, a, k));
    } else {
        lemma_precedes_total_from(a, b, k + 1);
    }
}

pub proof fn lemma_precedes_total(a: Seq<char>, b: Seq<char>)
    ensures
        a == b || precedes(a, b) || precedes(b, a),
{
    lemma_precedes_total_from(a, b, 0);
}

/// Whether `a` stands before `b` in the order of texts by their characters.
pub(crate) fn text_precedes(a: &str, b: &str) -> (r: bool)
    ensures
        r == precedes(a@, b@),
{
    let v = chars_of(a);
    let w = chars_of(b);
    let mut i: usize = 0;
    while i < v.len() && i < w.len() && v[i] == w[i]
        invariant
            i <= v.len(),
            i <= w.len(),
            v@ == a@,
            w@ == b@,
            forall|j: int| 0 <= j < i ==> v@[j] == #[trigger] w@[j],
        decreases v.len() - i,
    {
        i = i + 1;
    }
    proof {
        if i < w.len() && (i == v.len() || v@[i as int] < w@[i as int]) {
            assert(precedes_at(a@, b@, i as int));
        } else if i < v.len() {
            assert(precedes_at(b@, a@, i as int));
            assert forall|k: int| !#[trigger] precedes_at(a@, b@, k) by {
                if precedes_at(a@, b@, k) {
                    if k > i {
                        assert(a@[i as int] == b@[i as int]);
                    }
                }
            }
        } else {
            assert(a@ =~= b@);
        }
    }
    i < w.len() && (i == v.len() || v[i] < w[i])
}

/// The decimal digit of `n`, for `n` below ten.
pub open spec fn digit_char(n: nat) -> char {
    (48 + n) as char
}

/// `n` written in decimal.
pub open spec fn decimal(n: nat) -> Seq<char>
    decreases n,
{
    if n < 10 {
        seq![digit_char(n)]
    } else {
        decimal(n / 10).push(digit_char(n % 10))
    }
}

/// `n` written in decimal, with a minus sign where it is negative.
pub open spec fn decimal_signed(n: int) -> Seq<char> {
    if n < 0 {
        seq!['-'] + decimal((-n) as nat)
    } else {
        decimal(n as nat)
    }
}

fn digit_text(n: u64) -> (r: &'static str)
    requires
        n < 10,
    ensures
        r@ == seq![digit_char(n as nat)],
{
    proof {
        reveal_strlit("0");
        reveal_strlit("1");
        reveal_strlit("2");
        reveal_strlit("3");
        reveal_strlit("4");
        reveal_strlit("5");
        reveal_strlit("6");
        reveal_strlit("7");
        reveal_strlit("8");
        reveal_strlit("9");
    }
    match n {
        0 => "0",
        1 => "1",
        2 => "2",
        3 => "3",
        4 => "4",
        5 => "5",
        6 => "6",
        7 => "7",
        8 => "8",
        _ => "9",
    }
}

/// `n` written in decimal.
pub(crate) fn decimal_text(n: u64) -> (r: String)
    ensures
        r@ == decimal(n as nat),
    decreases n,
{
    if n < 10 {
        digit_text(n).to_owned()
    } else {
        let mut s = decimal_text(n / 10);
        s.append(digit_text(n % 10));
        s
    }
}

/// `n` written in decimal, with a minus sign where it is negative.
pub(crate) fn decimal_signed_text(n: i32) -> (r: String)
    ensures
        r@ == decimal_signed(n as int),
{
    if n < 0 {
        let m: u64 = (-(n as i64)) as u64;
        let s = decimal_text(m);
        let mut t = "-".to_owned();
        t.append(s.as_str());
        proof {
            reveal_strlit("-");
            assert("-"@ =~= seq!['-']);
        }
        t
    } else {
        decimal_text(n as u64)
    }
}

/// Half of `doubled` written in decimal, with one digit behind the point.
pub open spec fn half_decimal(doubled: int) -> Seq<char> {
    let magnitude = if doubled < 0 {
        -doubled
    } else {
        doubled
    };
    let text = decimal((magnitude / 2) as nat) + (if magnitude % 2 == 0 {
        ".0"@
    } else {
        ".5"@
    });
    if doubled < 0 {
        "-"@ + text
    } else {
        text
    }
}

fn half_decimal_text(doubled: i64) -> (r: String)
    ensures
        r@ == half_decimal(doubled as int),
{
    let magnitude: u64 = if doubled < 0 {
        (-(doubled + 1)) as u64 + 1
    } else {
        doubled as u64
    };
    let text = decimal_text(magnitude / 2).concat(
        if magnitude % 2 == 0 {
            ".0"
        } else {
            ".5"
        },
    );
    if doubled < 0 {
        "-".to_owned().concat(text.as_str())
    } else {
        text
    }
}

/// How a point reads whose coordinates are given doubled.
pub open spec fn point_reading(doubled: (int, int)) -> Seq<char> {
    "("@ + half_decimal(doubled.0) + ", "@ + half_decimal(doubled.1) + ")"@
}

/// How a point reads whose coordinates are given doubled.
pub(crate) fn point_text(doubled: (i64, i64)) -> (r: String)
    ensures
        r@ == point_reading((doubled.0 as int, doubled.1 as int)),
{
    "(".to_owned().concat(half_decimal_text(doubled.0).as_str()).concat(", ").concat(
        half_decimal_text(doubled.1).as_str(),
    ).concat(")")
}

/// The texts of `parts`, one after the other, with `separator` between them.
pub open spec fn joined(parts: Seq<Seq<char>>, separator: Seq<char>) -> Seq<char>
    decreases parts.len(),
{
    if parts.len() == 0 {
        Seq::empty()
    } else if parts.len() == 1 {
        parts[0]
    } else {
        joined(parts.drop_last(), separator) + separator + parts.last()
    }
}

/// What each text of `parts` holds.
pub open spec fn texts(parts: Seq<String>) -> Seq<Seq<char>> {
    parts.map_values(|s: String| s@)
}

/// The texts of `parts`, one after the other, with one space between them.
pub(crate) fn join_with_spaces(parts: &Vec<String>) -> (r: String)
    ensures
        r@ == joined(texts(parts@), seq![' ']),
{
    let mut r = String::new();
    let mut i: usize = 0;
    proof {
        reveal_strlit(" ");
        assert(" "@ =~= seq![' ']);
        assert(texts(parts@).take(0) =~= Seq::empty());
    }
    while i < parts.len()
        invariant
            i <= parts.len(),
            " "@ == seq![' '],
            r@ == joined(texts(parts@).take(i as int), seq![' ']),
        decreases parts.len() - i,
    {
        if i > 0 {
            r.append(" ");
        }
        r.append(parts[i].as_str());
        proof {
            let all = texts(parts@);
            assert(all.take(i + 1).drop_last() =~= all.take(i as int));
            assert(all.take(i + 1).last() == parts@[i as int]@);
            if i == 0 {
                assert(joined(all.take(0), seq![' ']) =~= Seq::<char>::empty());
                assert(r@ =~= all.take(1)[0]);
            }
        }
        i = i + 1;
    }
    assert(texts(parts@).take(parts.len() as int) =~= texts(parts@));
    r
}

} // verus!
