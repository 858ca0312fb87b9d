//! What holds of texts, said of their characters and numbers.

use vstd::prelude::*;

use crate::commands::{failure_detail, region};
use crate::error::HyprError;
use crate::identity::Client;
use crate::pointer::PointerError;
use crate::session::{is_desktop_separator, is_listed_name, mentions_hyprland, says_hyprland};
use crate::text::{
    decimal, decimal_signed, folded, folded_code, half_decimal, is_white_space, joined,
    lemma_trimmed_blank, point_reading, precedes, precedes_at, trimmed, trimmed_end, trimmed_start,
};

verus! {

proof fn lemma_start(s: Seq<char>) -> (i: int)
    ensures
        0 <= i <= s.len(),
        trimmed_start(s) == s.skip(i),
        forall|k: int| 0 <= k < i ==> is_white_space(#[trigger] s[k]),
        i < s.len() ==> !is_white_space(s[i]),
    decreases s.len(),
{
    if s.len() > 0 && is_white_space(s[0]) {
        let rest = s.drop_first();
        let i = lemma_start(rest);
        assert(rest.skip(i) =~= s.skip(i + 1));
        assert forall|k: int| 0 <= k < i + 1 implies is_white_space(#[trigger] s[k]) by {
            if k > 0 {
                assert(rest[k - 1] == s[k]);
            }
        }
        if i < rest.len() {
            assert(rest[i] == s[i + 1]);
        }
        i + 1
    } else {
        assert(s.skip(0) =~= s);
        0
    }
}

proof fn lemma_end(s: Seq<char>) -> (j: int)
    ensures
        0 <= j <= s.len(),
        trimmed_end(s) == s.take(j),
        forall|k: int| j <= k < s.len() ==> is_white_space(#[trigger] s[k]),
        j > 0 ==> !is_white_space(s[j - 1]),
    decreases s.len(),
{
    if s.len() > 0 && is_white_space(s.last()) {
        let init = s.drop_last();
        let j = lemma_end(init);
        assert(init.take(j) =~= s.take(j));
        assert forall|k: int| j <= k < s.len() implies is_white_space(#[trigger] s[k]) by {
            if k < init.len() {
                assert(init[k] == s[k]);
            }
        }
        if j > 0 {
            assert(init[j - 1] == s[j - 1]);
        }
        j
    } else {
        assert(s.take(s.len() as int) =~= s);
        s.len() as int
    }
}

/// A trimmed text is a part of the text that neither begins nor ends with
/// white space, and before and behind which there is nothing else.
pub proof fn law_trimming_takes_off_white_space_alone(s: Seq<char>) -> (ends: (int, int))
    ensures
        0 <= ends.0 <= ends.1 <= s.len(),
        trimmed(s) == s.subrange(ends.0, ends.1),
        forall|k: int| 0 <= k < ends.0 ==> is_white_space(#[trigger] s[k]),
        forall|k: int| ends.1 <= k < s.len() ==> is_white_space(#[trigger] s[k]),
        ends.0 < ends.1 ==> !is_white_space(s[ends.0]) && !is_white_space(s[ends.1 - 1]),
{
    let i = lemma_start(s);
    let t = s.skip(i);
    let j = lemma_end(t);
    assert(t.take(j) =~= s.subrange(i, i + j));
    assert forall|k: int| i + j <= k < s.len() implies is_white_space(#[trigger] s[k]) by {
        assert(t[k - i] == s[k]);
    }
    if j > 0 {
        assert(t[j - 1] == s[i + j - 1]);
        assert(t[0] == s[i]);
        assert(i < s.len());
    }
    (i, i + j)
}

/// Whether two characters are one ASCII letter, in either case.
pub open spec fn is_one_letter(a: char, b: char) -> bool {
    ||| 'A' <= a <= 'Z' && b as int == a as int + 32
    ||| 'A' <= b <= 'Z' && a as int == b as int + 32
}

proof fn lemma_folded_chars(a: char, b: char)
    requires
        folded_code(a) == folded_code(b),
    ensures
        a == b || is_one_letter(a, b),
{
    let m = a as u32;
    let n = b as u32;
    assert(m as int == a as int && n as int == b as int);
    if m == n {
        assert(a as int == b as int);
    }
}

/// Texts agree but for case exactly where they are as long and agree at each
/// place, but for the case of an ASCII letter.
pub proof fn law_only_ascii_letters_change_case(a: Seq<char>, b: Seq<char>)
    ensures
        folded(a) == folded(b) <==> a.len() == b.len() && forall|i: int|
            0 <= i < a.len() ==> #[trigger] a[i] == b[i] || is_one_letter(a[i], b[i]),
{
    if folded(a) == folded(b) {
        assert(folded(a).len() == a.len() && folded(b).len() == b.len());
        assert forall|i: int| 0 <= i < a.len() implies #[trigger] a[i] == b[i] || is_one_letter(
            a[i],
            b[i],
        ) by {
            assert(folded(a)[i] == folded_code(a[i]));
            assert(folded(b)[i] == folded_code(b[i]));
            lemma_folded_chars(a[i], b[i]);
        }
    }
    if a.len() == b.len() && forall|i: int|
        0 <= i < a.len() ==> #[trigger] a[i] == b[i] || is_one_letter(a[i], b[i]) {
        assert forall|i: int| 0 <= i < a.len() implies folded(a)[i] == folded(b)[i] by {
            assert(a[i] == b[i] || is_one_letter(a[i], b[i]));
        }
        assert(folded(a) =~= folded(b));
    }
}

/// The number that a row of decimal digits writes.
pub open spec fn number_of(digits: Seq<char>) -> int
    decreases digits.len(),
{
    if digits.len() == 0 {
        0
    } else {
        10 * number_of(digits.drop_last()) + (digits.last() as int - '0' as int)
    }
}

/// A number is written with the decimal digits that stand for it, the highest
/// first, and without a zero that it does not need.
pub proof fn law_decimal_digits_write_their_number(n: nat)
    ensures
        decimal(n).len() > 0,
        forall|i: int| 0 <= i < decimal(n).len() ==> '0' <= #[trigger] decimal(n)[i] <= '9',
        number_of(decimal(n)) == n,
        n > 0 ==> decimal(n)[0] != '0',
        n == 0 ==> decimal(n).len() == 1,
    decreases n,
{
    let digits = decimal(n);
    if n < 10 {
        assert(digits.drop_last() =~= Seq::empty());
        assert(number_of(Seq::<char>::empty()) == 0);
    } else {
        law_decimal_digits_write_their_number(n / 10);
        assert(digits.drop_last() =~= decimal(n / 10));
        assert forall|i: int| 0 <= i < digits.len() implies '0' <= #[trigger] digits[i] <= '9' by {
            if i < digits.len() - 1 {
                assert(digits[i] == decimal(n / 10)[i]);
            }
        }
    }
}

/// A negative number is written as its opposite behind a minus sign; a half is
/// written behind a point, and a point of the desktop in brackets, its first
/// coordinate first.
pub proof fn law_signs_and_halves_are_written_out(n: nat, x: int, y: int)
    ensures
        decimal_signed(n as int) == decimal(n),
        n > 0 ==> decimal_signed(-(n as int)) == seq!['-'] + decimal(n),
        half_decimal(2 * (n as int)) == decimal(n) + seq!['.', '0'],
        half_decimal(2 * (n as int) + 1) == decimal(n) + seq!['.', '5'],
        half_decimal(-(2 * (n as int) + 1)) == seq!['-'] + decimal(n) + seq!['.', '5'],
        n > 0 ==> half_decimal(-(2 * (n as int))) == seq!['-'] + decimal(n) + seq!['.', '0'],
        point_reading((x, y)) == seq!['('] + half_decimal(x) + seq![',', ' '] + half_decimal(y)
            + seq![')'],
{
    reveal_strlit(".0");
    reveal_strlit(".5");
    reveal_strlit("-");
    reveal_strlit("(");
    reveal_strlit(", ");
    reveal_strlit(")");
    assert(".0"@ =~= seq!['.', '0']);
    assert(".5"@ =~= seq!['.', '5']);
    assert("-"@ =~= seq!['-']);
    assert("("@ =~= seq!['(']);
    assert(", "@ =~= seq![',', ' ']);
    assert(")"@ =~= seq![')']);
    let m = n as int;
    assert((2 * m) / 2 == m && (2 * m) % 2 == 0);
    assert((2 * m + 1) / 2 == m && (2 * m + 1) % 2 == 1);
    assert(seq!['-'] + (decimal(n) + seq!['.', '5']) =~= seq!['-'] + decimal(n) + seq!['.', '5']);
    assert(seq!['-'] + (decimal(n) + seq!['.', '0']) =~= seq!['-'] + decimal(n) + seq!['.', '0']);
}

/// One part stands alone, and two rows of parts are joined by joining each and
/// putting the separator between.
pub proof fn law_parts_are_joined_in_their_order(
    first: Seq<Seq<char>>,
    second: Seq<Seq<char>>,
    separator: Seq<char>,
    part: Seq<char>,
)
    requires
        first.len() > 0,
        second.len() > 0,
    ensures
        joined(seq![part], separator) == part,
        joined(first + second, separator) == joined(first, separator) + separator + joined(
            second,
            separator,
        ),
    decreases second.len(),
{
    let all = first + second;
    assert(all.last() == second.last());
    if second.len() == 1 {
        assert(all.drop_last() =~= first);
    } else {
        let init = second.drop_last();
        assert(all.drop_last() =~= first + init);
        law_parts_are_joined_in_their_order(first, init, separator, part);
        assert(joined(first, separator) + separator + joined(init, separator) + separator
            + second.last() =~= joined(first, separator) + separator + (joined(init, separator)
            + separator + second.last()));
    }
}

/// A list of desktop names names Hyprland exactly where the part before or the
/// part behind one of its colons or semicolons does.
pub proof fn law_desktop_names_are_listed_between_separators(
    a: Seq<char>,
    separator: char,
    b: Seq<char>,
)
    requires
        separator == ':' || separator == ';',
    ensures
        mentions_hyprland(a + seq![separator] + b) <==> mentions_hyprland(a) || mentions_hyprland(
            b,
        ),
{
    let whole = a + seq![separator] + b;
    let n = a.len() as int;
    assert(whole[n] == separator);
    if mentions_hyprland(a) {
        let (i, j) = choose|i: int, j: int| #[trigger]
            is_listed_name(a, i, j) && says_hyprland(a.subrange(i, j));
        assert forall|k: int| i <= k < j implies !is_desktop_separator(#[trigger] whole[k]) by {
            assert(whole[k] == a[k]);
        }
        assert(is_listed_name(whole, i, j));
        assert(whole.subrange(i, j) =~= a.subrange(i, j));
    }
    if mentions_hyprland(b) {
        let (i, j) = choose|i: int, j: int| #[trigger]
            is_listed_name(b, i, j) && says_hyprland(b.subrange(i, j));
        let p = i + n + 1;
        let q = j + n + 1;
        assert forall|k: int| p <= k < q implies !is_desktop_separator(#[trigger] whole[k]) by {
            assert(whole[k] == b[k - n - 1]);
        }
        assert(i > 0 ==> whole[p - 1] == b[i - 1]);
        assert(j < b.len() ==> whole[q] == b[j]);
        assert(is_listed_name(whole, p, q));
        assert(whole.subrange(p, q) =~= b.subrange(i, j));
    }
    if mentions_hyprland(whole) {
        let (i, j) = choose|i: int, j: int| #[trigger]
            is_listed_name(whole, i, j) && says_hyprland(whole.subrange(i, j));
        assert(is_desktop_separator(whole[n]));
        if j <= n {
            assert forall|k: int| i <= k < j implies !is_desktop_separator(#[trigger] a[k]) by {
                assert(whole[k] == a[k]);
            }
            assert(i > 0 ==> whole[i - 1] == a[i - 1]);
            assert(j < n ==> whole[j] == a[j]);
            assert(is_listed_name(a, i, j));
            assert(whole.subrange(i, j) =~= a.subrange(i, j));
        } else {
            assert(i > n);
            let p = i - n - 1;
            let q = j - n - 1;
            assert forall|k: int| p <= k < q implies !is_desktop_separator(#[trigger] b[k]) by {
                assert(whole[k + n + 1] == b[k]);
            }
            assert(p > 0 ==> whole[i - 1] == b[p - 1]);
            assert(q < b.len() ==> whole[j] == b[q]);
            assert(is_listed_name(b, p, q));
            assert(whole.subrange(i, j) =~= b.subrange(p, q));
        }
    }
}

/// A single desktop name names Hyprland exactly where, without the white space
/// around it, it is the eight letters of the name in any case.
pub proof fn law_a_desktop_name_is_compared_without_case(name: Seq<char>)
    requires
        forall|k: int| 0 <= k < name.len() ==> #[trigger] name[k] != ':' && name[k] != ';',
    ensures
        mentions_hyprland(name) <==> folded(trimmed(name)) == folded(
            seq!['h', 'y', 'p', 'r', 'l', 'a', 'n', 'd'],
        ),
{
    reveal_strlit("hyprland");
    assert("hyprland"@ =~= seq!['h', 'y', 'p', 'r', 'l', 'a', 'n', 'd']);
    assert(is_listed_name(name, 0, name.len() as int));
    assert(name.subrange(0, name.len() as int) =~= name);
    assert forall|i: int, j: int| #[trigger] is_listed_name(name, i, j) implies i == 0 && j
        == name.len() by {
        if i > 0 {
            assert(is_desktop_separator(name[i - 1]));
        }
        if j < name.len() {
            assert(is_desktop_separator(name[j]));
        }
    }
}

/// A failed command is told by what it wrote as an error, whatever else it
/// wrote; by what else it wrote where the error is blank; and by how it ended
/// where both are blank.
pub proof fn law_a_failure_is_told_by_the_first_thing_written(
    stderr: Seq<char>,
    stdout: Seq<char>,
    status: Seq<char>,
    i: int,
)
    ensures
        0 <= i < stderr.len() && !is_white_space(stderr[i]) ==> failure_detail(
            stderr,
            stdout,
            status,
        ) == trimmed(stderr),
        (forall|k: int| 0 <= k < stderr.len() ==> is_white_space(#[trigger] stderr[k])) && 0 <= i
            < stdout.len() && !is_white_space(stdout[i]) ==> failure_detail(
            stderr,
            stdout,
            status,
        ) == trimmed(stdout),
        (forall|k: int| 0 <= k < stderr.len() ==> is_white_space(#[trigger] stderr[k])) && (forall|
            k: int,
        |
            0 <= k < stdout.len() ==> is_white_space(#[trigger] stdout[k])) ==> failure_detail(
            stderr,
            stdout,
            status,
        ) == "exit status "@ + status,
        failure_detail(stderr, stdout, status).len() > 0,
{
    reveal_strlit("exit status ");
    lemma_trimmed_blank(stderr);
    lemma_trimmed_blank(stdout);
}

/// A window is captured at its place, first across and then down, and in its
/// size, first its width and then its height; a side without pixels counts as
/// one.
pub proof fn law_a_region_is_place_and_size(client: Client)
    ensures
        client.size[0] >= 1 && client.size[1] >= 1 ==> region(client) == decimal_signed(
            client.at[0] as int,
        ) + seq![','] + decimal_signed(client.at[1] as int) + seq![' '] + decimal(
            client.size[0] as nat,
        ) + seq!['x'] + decimal(client.size[1] as nat),
        client.size[0] < 1 && client.size[1] >= 1 ==> region(client) == decimal_signed(
            client.at[0] as int,
        ) + seq![','] + decimal_signed(client.at[1] as int) + seq![' '] + decimal(1) + seq!['x']
            + decimal(client.size[1] as nat),
        client.size[0] >= 1 && client.size[1] < 1 ==> region(client) == decimal_signed(
            client.at[0] as int,
        ) + seq![','] + decimal_signed(client.at[1] as int) + seq![' '] + decimal(
            client.size[0] as nat,
        ) + seq!['x'] + decimal(1),
        client.size[0] < 1 && client.size[1] < 1 ==> region(client) == decimal_signed(
            client.at[0] as int,
        ) + seq![','] + decimal_signed(client.at[1] as int) + seq![' '] + decimal(1) + seq!['x']
            + decimal(1),
{
    reveal_strlit(",");
    reveal_strlit(" ");
    reveal_strlit("x");
    assert(","@ =~= seq![',']);
    assert(" "@ =~= seq![' ']);
    assert("x"@ =~= seq!['x']);
}

/// What a refusal tells its caller names the values that it is about, each in
/// its place.
pub proof fn law_refusals_name_their_values(
    window_id: u64,
    pid: u32,
    x: i32,
    y: i32,
    width: u32,
    height: u32,
    first: String,
    second: String,
)
    ensures
        HyprError::NotVisible.text()
            == "Hyprland window is not visible on an active workspace; refusing a stale/off-workspace target"@,
        HyprError::NoEnabledMonitors.text() == "hyprctl monitors returned no enabled monitors"@,
        HyprError::TargetChangedIdentity.text()
            == "Hyprland target window changed identity before it could be focused"@,
        HyprError::ActiveFocusChanged.text()
            == "Hyprland active focus changed before pointer dispatch; refusing input to a different surface"@,
        (HyprError::UnknownWindow { window_id }).text() == "unknown Hyprland window_id "@ + decimal(
            window_id as nat,
        ) + "; call list_windows to refresh it"@,
        (HyprError::StaleWindow { window_id }).text() == "stale Hyprland window_id "@ + decimal(
            window_id as nat,
        ) + "; its original window no longer exists"@,
        (HyprError::CapturePointOutside { x, y, width, height }).text()
            == "window capture point ("@ + decimal_signed(x as int) + ", "@ + decimal_signed(
            y as int,
        ) + ") is outside the target screenshot's exclusive bounds 0.."@ + decimal(width as nat)
            + " x 0.."@ + decimal(height as nat),
        (HyprError::WrongOwner { window_id, pid }).text() == "Hyprland window "@ + decimal(
            window_id as nat,
        ) + " is not owned by pid "@ + decimal(pid as nat),
        (HyprError::OutsideEveryOutput { point: first }).text() == "screen point "@ + first@
            + " is outside every enabled Hyprland output"@,
        (HyprError::DispatchFailed { lua: first, legacy: second }).text()
            == "Hyprland focus dispatch failed (Lua: "@ + first@ + "; legacy: "@ + second@ + ")"@,
        (HyprError::StaleAddress { address: first }).text()
            == "refusing to focus stale or reused Hyprland address "@ + first@,
        (HyprError::AddressReused { address: first }).text() == "Hyprland address "@ + first@
            + " was reused by a different window while focusing"@,
        (HyprError::FocusTimedOut { address: first }).text() == "Hyprland did not focus window "@
            + first@ + " within "@ + decimal(500) + "ms"@,
        (HyprError::HyprctlFailed { args: first, detail: second }).text() == "hyprctl -j "@
            + first@ + " failed: "@ + second@,
        (HyprError::InvalidResponse { args: first, detail: second }).text()
            == "invalid hyprctl -j "@ + first@ + " response: "@ + second@,
        (HyprError::GrimFailed { args: first, detail: second }).text() == "grim "@ + first@
            + " failed: "@ + second@,
        (HyprError::GrimEmpty { args: first }).text() == "grim "@ + first@
            + " produced no output"@,
        (PointerError::AlreadyHeld { cursor_id: first }).text() == "cursor '"@ + first@
            + "' already has a held mouse button"@,
        (PointerError::NothingToMove { cursor_id: first }).text()
            == "no held mouse button for cursor '"@ + first@
            + "'; call mouse_button_down first"@,
        (PointerError::NothingToRelease { cursor_id: first }).text()
            == "no held mouse button for cursor '"@ + first@ + "'"@,
        (PointerError::LeftOutput { output_name: first, cleanup: None }).text()
            == "Hyprland held-pointer move leaves bound output "@ + first@
            + "; the held gesture was canceled and its buttons released"@,
        (PointerError::LeftOutput { output_name: first, cleanup: Some(second) }).text()
            == "Hyprland held-pointer move leaves bound output "@ + first@
            + "; the held gesture was canceled and its buttons released"@
            + ", but compositor cleanup failed: "@ + second@,
        (PointerError::ConnectionFailed { detail: first }).text() == first@,
{
}

/// Of two texts that begin alike, the one with the smaller character at the
/// first place where they differ comes first, and a text comes before those
/// that go on from it.
pub proof fn law_texts_are_ordered_by_their_first_difference(
    start: Seq<char>,
    c: char,
    d: char,
    a: Seq<char>,
    b: Seq<char>,
)
    requires
        c < d,
    ensures
        precedes(start + seq![c] + a, start + seq![d] + b),
        !precedes(start + seq![d] + b, start + seq![c] + a),
        precedes(start, start + seq![c] + a),
        !precedes(start + seq![c] + a, start),
{
    let n = start.len() as int;
    let first = start + seq![c] + a;
    let second = start + seq![d] + b;
    assert(first[n] == c && second[n] == d);
    assert(precedes_at(first, second, n));
    assert(precedes_at(start, first, n));
    assert forall|k: int| !#[trigger] precedes_at(second, first, k) by {
        if precedes_at(second, first, k) {
            if k > n {
                assert(second[n] == first[n]);
            } else if k < n {
                assert(second[k] == first[k]);
            }
        }
    }
    assert forall|k: int| !#[trigger] precedes_at(first, start, k) by {
        if precedes_at(first, start, k) {
            assert(first[k] == start[k]);
        }
    }
}

} // verus!
