//! Virtual pointers that stay alive between requests, so that a button can be
//! held over a drag.
//!
//! A pointer lives from the press of a button to the release of the last one
//! that is held. What it does to the compositor is decided here step by step:
//! a command gives an action, and what became of the action gives the next
//! one, until the command is answered.
//!
//! Where a roundtrip to the compositor fails, the pointer and its connection
//! are given up with the command, and the next press starts afresh.

use std::collections::HashSet;

use vstd::prelude::*;
use vstd::string::*;

use crate::monitors::{nearest_pixel, pixel_near};
use crate::names::NameMap;

verus! {

broadcast use vstd::std_specs::hash::group_hash_axioms;

/// What a caller asks of the pointer of one cursor. A button is given by its
/// evdev code.
#[derive(Debug)]
pub enum Cmd {
    Press { cursor_id: String, window_id: u64, x: i32, y: i32, button: u32 },
    MoveTo { cursor_id: String, x: i32, y: i32 },
    Release { cursor_id: String, button: u32 },
    Forget { cursor_id: String },
}

/// Asks to press and hold a button on a window.
pub fn press(cursor_id: &str, window_id: u64, x: i32, y: i32, button: u32) -> (r: Cmd)
    ensures
        r matches Cmd::Press { cursor_id: id, window_id: w, x: a, y: b, button: c } && id@
            == cursor_id@ && w == window_id && a == x && b == y && c == button,
{
    Cmd::Press { cursor_id: cursor_id.to_owned(), window_id, x, y, button }
}

/// Asks to move the held pointer.
pub fn move_to(cursor_id: &str, x: i32, y: i32) -> (r: Cmd)
    ensures
        r matches Cmd::MoveTo { cursor_id: id, x: a, y: b } && id@ == cursor_id@ && a == x && b
            == y,
{
    Cmd::MoveTo { cursor_id: cursor_id.to_owned(), x, y }
}

/// Asks to release a button of the held pointer.
pub fn release(cursor_id: &str, button: u32) -> (r: Cmd)
    ensures
        r matches Cmd::Release { cursor_id: id, button: c } && id@ == cursor_id@ && c == button,
{
    Cmd::Release { cursor_id: cursor_id.to_owned(), button }
}

/// Asks to release every button that the pointer holds, and to give it up.
pub fn forget(cursor_id: &str) -> (r: Cmd)
    ensures
        r matches Cmd::Forget { cursor_id: id } && id@ == cursor_id@,
{
    Cmd::Forget { cursor_id: cursor_id.to_owned() }
}

/// Why a command on a pointer fails.
#[derive(Debug, PartialEq, Eq)]
pub enum PointerError {
    /// The cursor holds a button already.
    AlreadyHeld { cursor_id: String },
    /// The cursor holds no button with which to move.
    NothingToMove { cursor_id: String },
    /// The cursor holds no button to release.
    NothingToRelease { cursor_id: String },
    /// The move leaves the output that the pointer is bound to. `cleanup` says
    /// why giving the pointer up failed, where it did.
    LeftOutput { output_name: String, cleanup: Option<String> },
    /// The compositor could not be reached, or refused.
    ConnectionFailed { detail: String },
}

impl PointerError {
    /// What the caller is told.
    pub open spec fn text(self) -> Seq<char> {
        match self {
            PointerError::AlreadyHeld { cursor_id } => "cursor '"@ + cursor_id@
                + "' already has a held mouse button"@,
            PointerError::NothingToMove { cursor_id } => "no held mouse button for cursor '"@
                + cursor_id@ + "'; call mouse_button_down first"@,
            PointerError::NothingToRelease { cursor_id } => "no held mouse button for cursor '"@
                + cursor_id@ + "'"@,
            PointerError::LeftOutput { output_name, cleanup } => {
                let text = "Hyprland held-pointer move leaves bound output "@ + output_name@
                    + "; the held gesture was canceled and its buttons released"@;
                match cleanup {
                    Some(detail) => text + ", but compositor cleanup failed: "@ + detail@,
                    None => text,
                }
            },
            PointerError::ConnectionFailed { detail } => detail@,
        }
    }

    /// What the caller is told.
    pub fn message(&self) -> (r: String)
        ensures
            r@ == self.text(),
    {
        match self {
            PointerError::AlreadyHeld { cursor_id } => "cursor '".to_owned().concat(
                cursor_id.as_str(),
            ).concat("' already has a held mouse button"),
            PointerError::NothingToMove { cursor_id } =>
                "no held mouse button for cursor '".to_owned().concat(cursor_id.as_str()).concat(
                "'; call mouse_button_down first",
            ),
            PointerError::NothingToRelease { cursor_id } =>
                "no held mouse button for cursor '".to_owned().concat(cursor_id.as_str()).concat(
                "'",
            ),
            PointerError::LeftOutput { output_name, cleanup } => {
                let text = "Hyprland held-pointer move leaves bound output ".to_owned().concat(
                    output_name.as_str(),
                ).concat("; the held gesture was canceled and its buttons released");
                match cleanup {
                    Some(detail) => text.concat(", but compositor cleanup failed: ").concat(
                        detail.as_str(),
                    ),
                    None => text,
                }
            },
            PointerError::ConnectionFailed { detail } => detail.clone(),
        }
    }
}

/// A number with a fraction, as far as it is needed here: rounded down, where
/// it is a number at all, and rounded to the nearest whole one.
#[derive(Clone, Copy, Debug)]
pub struct Coordinate {
    pub floor: Option<i64>,
    pub nearest: i64,
}

/// How points of a capture lead to points of an output over a drag: the scale
/// between them, and the point of each where the drag began. Numbers with a
/// fraction are given by their bits; where the session gave none, the drag
/// began in the capture at `pressed`, and the scale is one.
#[derive(Clone, Copy, Debug)]
pub struct DragMapping {
    pub capture_x_bits: Option<u64>,
    pub capture_y_bits: Option<u64>,
    pub scale_bits: Option<u64>,
    pub pressed: (i32, i32),
    pub output: (u32, u32),
}

/// What opening a session for a press found.
#[derive(Debug)]
pub struct SessionTarget {
    pub output_w: u32,
    pub output_h: u32,
    pub target_x: Option<u32>,
    pub target_y: Option<u32>,
    pub output_name: Option<String>,
    pub capture_x_bits: Option<u64>,
    pub capture_y_bits: Option<u64>,
    pub scale_bits: Option<u64>,
}

/// One pointer that is alive.
#[derive(Debug)]
pub struct ActivePointer {
    /// The evdev codes of the buttons that are held.
    held: HashSet<u32>,
    out_w: u32,
    out_h: u32,
    output_name: Option<String>,
    mapping: DragMapping,
}

/// What an `ActivePointer` holds.
#[verifier::ext_equal]
pub struct PointerView {
    pub held: Set<u32>,
    pub out_w: u32,
    pub out_h: u32,
    pub output_name: Option<String>,
    pub mapping: DragMapping,
}

impl View for ActivePointer {
    type V = PointerView;

    closed spec fn view(&self) -> PointerView {
        PointerView {
            held: self.held@,
            out_w: self.out_w,
            out_h: self.out_h,
            output_name: self.output_name,
            mapping: self.mapping,
        }
    }
}

/// The pointers that are alive, by cursor.
pub struct PointerTable {
    active: NameMap<ActivePointer>,
}

impl View for PointerTable {
    type V = Map<Seq<char>, PointerView>;

    closed spec fn view(&self) -> Map<Seq<char>, PointerView> {
        self.active@.map_values(|pointer: ActivePointer| pointer@)
    }
}

/// One request to the compositor on a virtual pointer.
#[derive(Clone, Copy, Debug, PartialEq, Eq, Structural)]
pub enum PointerRequest {
    Motion { x: u32, y: u32, width: u32, height: u32 },
    Button { button: u32, pressed: bool },
    Frame,
    Destroy,
}

/// What becomes of the connection of a cursor when its command is answered.
#[derive(Clone, Copy, Debug, PartialEq, Eq, Structural)]
pub enum ConnectionUse {
    /// The connection of the session that was opened becomes the cursor's.
    Adopt,
    /// The session that was opened is dropped; the cursor has no connection.
    Drop,
    /// The cursor keeps its connection, if it has one.
    Keep,
    /// The connection of the cursor is closed.
    Close,
}

/// A press whose session is being opened.
#[derive(Debug)]
pub struct Opening {
    pub cursor_id: String,
    pub x: i32,
    pub y: i32,
    pub button: u32,
}

/// A move whose place on the output with this name is being computed.
#[derive(Debug)]
pub struct Locating {
    pub cursor_id: String,
    pub output_name: String,
}

/// How a command is answered once its pointer is destroyed.
#[derive(Debug)]
pub enum Ending {
    /// As said, whatever became of destroying the pointer.
    Answer(Result<(), PointerError>),
    /// Well, unless releasing the buttons or destroying the pointer failed.
    Forgotten { released: Result<(), String> },
    /// By saying that the move left its output, and why giving the pointer up
    /// failed, where it did.
    Left { output_name: String, released: Result<(), String> },
}

/// What a roundtrip to the compositor is made for.
#[derive(Debug)]
pub enum Committing {
    Pressing { cursor_id: String, session: SessionTarget, x: i32, y: i32, button: u32 },
    Moving { cursor_id: String },
    Releasing { cursor_id: String, button: u32 },
    /// All buttons are released, because the pointer is to be forgotten, or
    /// because a move left the output with this name.
    ReleasingAll { cursor_id: String, left: Option<String> },
    Destroying { cursor_id: String, ending: Ending },
}

/// What is to be done next.
#[derive(Debug)]
pub enum Action {
    /// Open a session on the window, at the point where the button goes down.
    Open { window_id: u64, opening: Opening },
    /// Compute where the point of the capture lies on the output.
    Locate { mapping: DragMapping, x: i32, y: i32, locating: Locating },
    /// Send the requests on the pointer, and make a roundtrip.
    Commit { requests: Vec<PointerRequest>, committing: Committing },
    /// Answer the command.
    Finish { cursor_id: String, connection: ConnectionUse, reply: Result<(), PointerError> },
}

/// What an `Action` holds.
#[verifier::ext_equal]
pub enum ActionView {
    Open { window_id: u64, opening: Opening },
    Locate { mapping: DragMapping, x: i32, y: i32, locating: Locating },
    Commit { requests: Seq<PointerRequest>, committing: Committing },
    Finish { cursor_id: String, connection: ConnectionUse, reply: Result<(), PointerError> },
}

impl View for Action {
    type V = ActionView;

    open spec fn view(&self) -> ActionView {
        match *self {
            Action::Open { window_id, opening } => ActionView::Open { window_id, opening },
            Action::Locate { mapping, x, y, locating } => ActionView::Locate {
                mapping,
                x,
                y,
                locating,
            },
            Action::Commit { requests, committing } => ActionView::Commit {
                requests: requests@,
                committing,
            },
            Action::Finish { cursor_id, connection, reply } => ActionView::Finish {
                cursor_id,
                connection,
                reply,
            },
        }
    }
}

/// The codes of a set, from the smallest to the largest.
pub open spec fn lists_ascending(codes: Seq<u32>, set: Set<u32>) -> bool {
    &&& forall|i: int, j: int| 0 <= i < j < codes.len() ==> codes[i] < codes[j]
    &&& codes.to_set() == set
}

fn insert_code(codes: &mut Vec<u32>, code: u32)
    requires
        forall|i: int, j: int| 0 <= i < j < old(codes)@.len() ==> old(codes)@[i] < old(codes)@[j],
        !old(codes)@.contains(code),
    ensures
        lists_ascending(final(codes)@, old(codes)@.to_set().insert(code)),
{
    let ghost before = codes@;
    let mut at: usize = 0;
    while at < codes.len() && codes[at] < code
        invariant
            at <= codes.len(),
            codes@ == before,
            forall|i: int| 0 <= i < at ==> before[i] < code,
        decreases codes.len() - at,
    {
        at = at + 1;
    }
    assert(at < codes.len() ==> before[at as int] != code);
    codes.insert(at, code);
    proof {
        let after = codes@;
        assert(after =~= before.insert(at as int, code));
        assert forall|i: int| 0 <= i < before.len() implies #[trigger] before[i] == after[if i < at {
            i
        } else {
            i + 1
        }] by {}
        assert forall|i: int| 0 <= i < after.len() && i != at implies #[trigger] after[i]
            == before[if i < at {
            i
        } else {
            i - 1
        }] by {}
        assert(after[at as int] == code);
        assert(after.to_set() =~= before.to_set().insert(code)) by {
            assert forall|c: u32| after.to_set().contains(c) implies before.to_set().insert(
                code,
            ).contains(c) by {
                let i = choose|i: int| 0 <= i < after.len() && after[i] == c;
                if i != at {
                    let j = if i < at { i } else { i - 1 };
                    assert(before[j] == c);
                }
            }
            assert forall|c: u32| before.to_set().insert(code).contains(c) implies
                after.to_set().contains(c) by {
                if c == code {
                    assert(after[at as int] == c);
                } else {
                    let i = choose|i: int| 0 <= i < before.len() && before[i] == c;
                    let j = if i < at { i } else { i + 1 };
                    assert(after[j] == c);
                }
            }
        }
    }
}

/// The held buttons in the order in which they are released.
pub fn held_buttons_for_release(held: &HashSet<u32>) -> (r: Vec<u32>)
    ensures
        lists_ascending(r@, held@),
{
    let mut codes: Vec<u32> = Vec::new();
    assert(codes@.to_set() =~= Set::empty());
    for code in it: held.iter()
        invariant
            it.seq().no_duplicates(),
            it.seq().unref().to_set() == held@,
            codes@.to_set() == it.seq().unref().take(it.index() as int).to_set(),
            it.index() == it.seq().len() ==> codes@.to_set() == held@,
            forall|i: int, j: int| 0 <= i < j < codes@.len() ==> codes@[i] < codes@[j],
    {
        let ghost n = it.index() as int;
        let ghost all = it.seq().unref();
        proof {
            assert(all[n] == *code);
            assert(!codes@.contains(*code)) by {
                if codes@.contains(*code) {
                    assert(codes@.to_set().contains(*code));
                    assert(all.take(n).to_set().contains(*code));
                    let k = choose|k: int| 0 <= k < n && all.take(n)[k] == *code;
                    assert(all[k] == all[n]);
                    assert(it.seq()[k] == it.seq()[n]);
                }
            }
            assert(all.take(n + 1) =~= all.take(n).push(all[n]));
            assert(all.take(n).push(all[n]).to_set() =~= all.take(n).to_set().insert(all[n])) by {
                let s = all.take(n);
                let t = s.push(all[n]);
                assert forall|c: u32| s.to_set().insert(all[n]).contains(c) implies
                    t.to_set().contains(c) by {
                    if c == all[n] {
                        assert(t[n] == c);
                    } else {
                        let k = choose|k: int| 0 <= k < s.len() && s[k] == c;
                        assert(t[k] == c);
                    }
                }
            }
        }
        insert_code(&mut codes, *code);
        assert(n + 1 == all.len() ==> all.take(n + 1) =~= all);
    }
    codes
}

proof fn lemma_ascending_agree(a: Seq<u32>, b: Seq<u32>, n: nat)
    requires
        lists_ascending(a, b.to_set()),
        lists_ascending(b, b.to_set()),
        n <= a.len(),
        n <= b.len(),
    ensures
        forall|i: int| 0 <= i < n ==> a[i] == b[i],
    decreases n,
{
    if n > 0 {
        let i = n - 1;
        lemma_ascending_agree(a, b, i as nat);
        assert(a.to_set().contains(a[i]));
        assert(b.to_set().contains(b[i]));
        let j = choose|j: int| 0 <= j < b.len() && b[j] == a[i];
        let k = choose|k: int| 0 <= k < a.len() && a[k] == b[i];
        if j < i {
            assert(a[j] == b[j]);
        }
        if k < i {
            assert(a[k] == b[k]);
        }
    }
}

proof fn lemma_ascending_unique(a: Seq<u32>, b: Seq<u32>)
    requires
        lists_ascending(a, b.to_set()),
        lists_ascending(b, b.to_set()),
    ensures
        a == b,
{
    let n = if a.len() < b.len() { a.len() } else { b.len() };
    lemma_ascending_agree(a, b, n);
    if a.len() < b.len() {
        assert(b.to_set().contains(b[n as int]));
        let k = choose|k: int| 0 <= k < a.len() && a[k] == b[n as int];
        assert(a[k] == b[k]);
    }
    if b.len() < a.len() {
        assert(a.to_set().contains(a[n as int]));
        let k = choose|k: int| 0 <= k < b.len() && b[k] == a[n as int];
        assert(a[k] == b[k]);
    }
    assert(a =~= b);
}

/// The codes of a set, from the smallest to the largest.
pub open spec fn ascending(set: Set<u32>) -> Seq<u32> {
    choose|codes: Seq<u32>| lists_ascending(codes, set)
}

proof fn lemma_ascending_exists(set: Set<u32>)
    requires
        set.finite(),
    ensures
        exists|codes: Seq<u32>| lists_ascending(codes, set),
    decreases set.len(),
{
    if set.len() == 0 {
        let none = Seq::<u32>::empty();
        assert(none.to_set() =~= set);
        assert(lists_ascending(none, set));
    } else {
        let leq = |a: u32, b: u32| a <= b;
        set.find_unique_maximal_ensures(leq);
        let last = set.find_unique_maximal(leq);
        let rest = set.remove(last);
        lemma_ascending_exists(rest);
        let codes = choose|codes: Seq<u32>| lists_ascending(codes, rest);
        let longer = codes.push(last);
        assert forall|i: int| 0 <= i < codes.len() implies #[trigger] codes[i] < last by {
            assert(codes.to_set().contains(codes[i]));
            assert(set.contains(codes[i]));
            if codes[i] >= last {
                assert(leq(last, codes[i]));
                assert(leq(codes[i], last));
            }
        }
        assert forall|c: u32| longer.to_set().contains(c) == set.contains(c) by {
            if rest.contains(c) {
                assert(codes.to_set().contains(c));
                let i = choose|i: int| 0 <= i < codes.len() && codes[i] == c;
                assert(longer[i] == c);
            }
            if c == last {
                assert(longer[codes.len() as int] == c);
            }
            if longer.to_set().contains(c) {
                let i = choose|i: int| 0 <= i < longer.len() && longer[i] == c;
                if i < codes.len() {
                    assert(codes.to_set().contains(codes[i]));
                }
            }
        }
        assert(longer.to_set() =~= set);
        assert(lists_ascending(longer, set));
    }
}

/// Every finite set of codes can be listed in ascending order.
pub proof fn lemma_ascending(set: Set<u32>)
    requires
        set.finite(),
    ensures
        lists_ascending(ascending(set), set),
{
    lemma_ascending_exists(set);
}

/// The requests that release the buttons with these codes, in their order.
pub open spec fn releases(codes: Seq<u32>) -> Seq<PointerRequest> {
    codes.map_values(|button: u32| PointerRequest::Button { button, pressed: false })
}

/// The requests that release all buttons of a set.
pub open spec fn release_all_requests(held: Set<u32>) -> Seq<PointerRequest> {
    releases(ascending(held)).push(PointerRequest::Frame)
}

fn requests_to_release_all(held: &HashSet<u32>) -> (r: Vec<PointerRequest>)
    ensures
        r@ == release_all_requests(held@),
{
    let codes = held_buttons_for_release(held);
    proof {
        lemma_ascending_unique(ascending(held@), codes@);
    }
    let mut requests: Vec<PointerRequest> = Vec::new();
    let mut i: usize = 0;
    while i < codes.len()
        invariant
            i <= codes.len(),
            requests@ == releases(codes@.take(i as int)),
        decreases codes.len() - i,
    {
        requests.push(PointerRequest::Button { button: codes[i], pressed: false });
        i = i + 1;
        assert(requests@ =~= releases(codes@.take(i as int)));
    }
    assert(codes@.take(codes.len() as int) =~= codes@);
    requests.push(PointerRequest::Frame);
    requests
}

/// Whether a point with this coordinate lies off a side of `length` pixels.
pub open spec fn is_off(c: Coordinate, length: u32) -> bool {
    c.floor matches Some(floor) && (floor < 0 || floor >= length)
}

/// The pixel of an output that a point lies on, if it lies on the output.
pub open spec fn output_point(
    x: Coordinate,
    y: Coordinate,
    output_width: u32,
    output_height: u32,
) -> Option<(u32, u32)> {
    if is_off(x, output_width) || is_off(y, output_height) {
        None
    } else {
        Some(
            (
                pixel_near(x.nearest as int, output_width),
                pixel_near(y.nearest as int, output_height),
            ),
        )
    }
}

fn off(c: &Coordinate, length: u32) -> (r: bool)
    ensures
        r == is_off(*c, length),
{
    match c.floor {
        Some(floor) => floor < 0 || floor >= length as i64,
        None => false,
    }
}

/// The pixel of an output that a point lies on, if it lies on the output.
pub fn cached_output_point(
    x: Coordinate,
    y: Coordinate,
    output_width: u32,
    output_height: u32,
) -> (r: Option<(u32, u32)>)
    ensures
        r == output_point(x, y, output_width, output_height),
{
    if off(&x, output_width) || off(&y, output_height) {
        None
    } else {
        Some((nearest_pixel(x.nearest, output_width), nearest_pixel(y.nearest, output_height)))
    }
}

/// Whether a side of an output has pixels, and not more than a signed number
/// of 32 bits can count.
pub open spec fn is_side(length: u32) -> bool {
    1 <= length <= i32::MAX
}

/// Whether a session tells where on its output a press lies, or has sides to
/// find that out.
pub open spec fn press_fits(session: SessionTarget) -> bool {
    &&& session.target_x is None ==> is_side(session.output_w)
    &&& session.target_y is None ==> is_side(session.output_h)
}

/// Whether a pointer is bound to an output, or has sides within which to move.
pub open spec fn move_fits(pointer: PointerView) -> bool {
    pointer.output_name is Some || (is_side(pointer.out_w) && is_side(pointer.out_h))
}

/// Where on its output a press lies.
pub open spec fn press_point(session: SessionTarget, x: i32, y: i32) -> (u32, u32) {
    (
        match session.target_x {
            Some(target) => target,
            None => pixel_near(x as int, session.output_w),
        },
        match session.target_y {
            Some(target) => target,
            None => pixel_near(y as int, session.output_h),
        },
    )
}

/// The pointer that a press leaves.
pub open spec fn pressed_pointer(
    session: SessionTarget,
    x: i32,
    y: i32,
    button: u32,
) -> PointerView {
    PointerView {
        held: set![button],
        out_w: session.output_w,
        out_h: session.output_h,
        output_name: session.output_name,
        mapping: DragMapping {
            capture_x_bits: session.capture_x_bits,
            capture_y_bits: session.capture_y_bits,
            scale_bits: session.scale_bits,
            pressed: (x, y),
            output: press_point(session, x, y),
        },
    }
}

/// What follows a press: it is refused where the cursor holds a button.
pub open spec fn press_action(
    t: Map<Seq<char>, PointerView>,
    window_id: u64,
    opening: Opening,
) -> ActionView {
    if t.contains_key(opening.cursor_id@) {
        ActionView::Finish {
            cursor_id: opening.cursor_id,
            connection: ConnectionUse::Keep,
            reply: Err(PointerError::AlreadyHeld { cursor_id: opening.cursor_id }),
        }
    } else {
        ActionView::Open { window_id, opening }
    }
}

/// The action that moves a pointer to a pixel of its output.
pub open spec fn motion_action(
    pointer: PointerView,
    cursor_id: String,
    place: (u32, u32),
) -> ActionView {
    ActionView::Commit {
        requests: seq![
            PointerRequest::Motion {
                x: place.0,
                y: place.1,
                width: pointer.out_w,
                height: pointer.out_h,
            },
            PointerRequest::Frame,
        ],
        committing: Committing::Moving { cursor_id },
    }
}

/// What follows a move: it is refused where the cursor holds no button; a
/// pointer that is bound to an output is located first, another one is moved
/// within its sides.
pub open spec fn move_action(
    t: Map<Seq<char>, PointerView>,
    cursor_id: String,
    x: i32,
    y: i32,
) -> ActionView {
    if !t.contains_key(cursor_id@) {
        ActionView::Finish {
            cursor_id,
            connection: ConnectionUse::Keep,
            reply: Err(PointerError::NothingToMove { cursor_id }),
        }
    } else {
        let pointer = t[cursor_id@];
        match pointer.output_name {
            Some(output_name) => ActionView::Locate {
                mapping: pointer.mapping,
                x,
                y,
                locating: Locating { cursor_id, output_name },
            },
            None => motion_action(
                pointer,
                cursor_id,
                (pixel_near(x as int, pointer.out_w), pixel_near(y as int, pointer.out_h)),
            ),
        }
    }
}

/// What follows a release: it is refused where the cursor holds no button.
pub open spec fn release_action(
    t: Map<Seq<char>, PointerView>,
    cursor_id: String,
    button: u32,
) -> ActionView {
    if !t.contains_key(cursor_id@) {
        ActionView::Finish {
            cursor_id,
            connection: ConnectionUse::Keep,
            reply: Err(PointerError::NothingToRelease { cursor_id }),
        }
    } else {
        ActionView::Commit {
            requests: seq![
                PointerRequest::Button { button, pressed: false },
                PointerRequest::Frame,
            ],
            committing: Committing::Releasing { cursor_id, button },
        }
    }
}

/// What follows where a pointer is given up: all its buttons are released.
/// Without a pointer there is only its connection to close.
pub open spec fn give_up_action(
    t: Map<Seq<char>, PointerView>,
    cursor_id: String,
    left: Option<String>,
) -> ActionView {
    if t.contains_key(cursor_id@) {
        ActionView::Commit {
            requests: release_all_requests(t[cursor_id@].held),
            committing: Committing::ReleasingAll { cursor_id, left },
        }
    } else {
        ActionView::Finish {
            cursor_id,
            connection: ConnectionUse::Close,
            reply: match left {
                Some(output_name) => Err(PointerError::LeftOutput { output_name, cleanup: None }),
                None => Ok(()),
            },
        }
    }
}

/// What follows a command.
pub open spec fn command_action(t: Map<Seq<char>, PointerView>, cmd: Cmd) -> ActionView {
    match cmd {
        Cmd::Press { cursor_id, window_id, x, y, button } => press_action(
            t,
            window_id,
            Opening { cursor_id, x, y, button },
        ),
        Cmd::MoveTo { cursor_id, x, y } => move_action(t, cursor_id, x, y),
        Cmd::Release { cursor_id, button } => release_action(t, cursor_id, button),
        Cmd::Forget { cursor_id } => give_up_action(t, cursor_id, None),
    }
}

/// What follows once a session was opened for a press, or was not.
pub open spec fn opened_action(
    opening: Opening,
    opened: Result<SessionTarget, String>,
) -> ActionView {
    match opened {
        Ok(session) => {
            let place = press_point(session, opening.x, opening.y);
            ActionView::Commit {
                requests: seq![
                    PointerRequest::Motion {
                        x: place.0,
                        y: place.1,
                        width: session.output_w,
                        height: session.output_h,
                    },
                    PointerRequest::Frame,
                    PointerRequest::Button { button: opening.button, pressed: true },
                    PointerRequest::Frame,
                ],
                committing: Committing::Pressing {
                    cursor_id: opening.cursor_id,
                    session,
                    x: opening.x,
                    y: opening.y,
                    button: opening.button,
                },
            }
        },
        Err(detail) => ActionView::Finish {
            cursor_id: opening.cursor_id,
            connection: ConnectionUse::Drop,
            reply: Err(PointerError::ConnectionFailed { detail }),
        },
    }
}

/// What follows once a move was located: the pointer is moved, or given up
/// where the move leaves its output.
pub open spec fn located_action(
    t: Map<Seq<char>, PointerView>,
    locating: Locating,
    x: Coordinate,
    y: Coordinate,
) -> ActionView {
    if !t.contains_key(locating.cursor_id@) {
        ActionView::Finish {
            cursor_id: locating.cursor_id,
            connection: ConnectionUse::Keep,
            reply: Err(PointerError::NothingToMove { cursor_id: locating.cursor_id }),
        }
    } else {
        let pointer = t[locating.cursor_id@];
        match output_point(x, y, pointer.out_w, pointer.out_h) {
            Some(place) => motion_action(pointer, locating.cursor_id, place),
            None => give_up_action(t, locating.cursor_id, Some(locating.output_name)),
        }
    }
}

/// The action that destroys a pointer.
pub open spec fn destroy_action(cursor_id: String, ending: Ending) -> ActionView {
    ActionView::Commit {
        requests: seq![PointerRequest::Destroy],
        committing: Committing::Destroying { cursor_id, ending },
    }
}

/// The action that answers a command after which the cursor keeps its
/// connection.
pub open spec fn done_action(cursor_id: String) -> ActionView {
    ActionView::Finish { cursor_id, connection: ConnectionUse::Keep, reply: Ok(()) }
}

/// The first of two results that is a failure, or success.
pub open spec fn both(first: Result<(), String>, second: Result<(), String>) -> Result<
    (),
    String,
> {
    match first {
        Ok(()) => second,
        Err(detail) => Err(detail),
    }
}

/// How a command is answered once its pointer was destroyed, or was not.
pub open spec fn ending_reply(ending: Ending, destroyed: Result<(), String>) -> Result<
    (),
    PointerError,
> {
    match ending {
        Ending::Answer(reply) => reply,
        Ending::Forgotten { released } => match both(released, destroyed) {
            Ok(()) => Ok(()),
            Err(detail) => Err(PointerError::ConnectionFailed { detail }),
        },
        Ending::Left { output_name, released } => Err(
            PointerError::LeftOutput {
                output_name,
                cleanup: match both(released, destroyed) {
                    Ok(()) => None,
                    Err(detail) => Some(detail),
                },
            },
        ),
    }
}

/// The pointer with a button less.
pub open spec fn without_button(pointer: PointerView, button: u32) -> PointerView {
    PointerView { held: pointer.held.remove(button), ..pointer }
}

/// The pointers that are alive after a roundtrip.
pub open spec fn committed_table(
    t: Map<Seq<char>, PointerView>,
    committing: Committing,
    result: Result<(), String>,
) -> Map<Seq<char>, PointerView> {
    match committing {
        Committing::Pressing { cursor_id, session, x, y, button } => if result is Ok {
            t.insert(cursor_id@, pressed_pointer(session, x, y, button))
        } else {
            t
        },
        Committing::Moving { cursor_id } => if result is Ok {
            t
        } else {
            t.remove(cursor_id@)
        },
        Committing::Releasing { cursor_id, button } => if result is Ok {
            if !t.contains_key(cursor_id@) {
                t
            } else if t[cursor_id@].held.remove(button).is_empty() {
                t.remove(cursor_id@)
            } else {
                t.insert(cursor_id@, without_button(t[cursor_id@], button))
            }
        } else {
            t.remove(cursor_id@)
        },
        Committing::ReleasingAll { cursor_id, left } => t.remove(cursor_id@),
        Committing::Destroying { cursor_id, ending } => t,
    }
}

/// What follows a roundtrip.
pub open spec fn committed_action(
    t: Map<Seq<char>, PointerView>,
    committing: Committing,
    result: Result<(), String>,
) -> ActionView {
    match committing {
        Committing::Pressing { cursor_id, session, x, y, button } => match result {
            Ok(()) => ActionView::Finish {
                cursor_id,
                connection: ConnectionUse::Adopt,
                reply: Ok(()),
            },
            Err(detail) => ActionView::Finish {
                cursor_id,
                connection: ConnectionUse::Drop,
                reply: Err(PointerError::ConnectionFailed { detail }),
            },
        },
        Committing::Moving { cursor_id } => match result {
            Ok(()) => done_action(cursor_id),
            Err(detail) => destroy_action(
                cursor_id,
                Ending::Answer(Err(PointerError::ConnectionFailed { detail })),
            ),
        },
        Committing::Releasing { cursor_id, button } => match result {
            Ok(()) => if t.contains_key(cursor_id@) && t[cursor_id@].held.remove(
                button,
            ).is_empty() {
                destroy_action(cursor_id, Ending::Answer(Ok(())))
            } else {
                done_action(cursor_id)
            },
            Err(detail) => destroy_action(
                cursor_id,
                Ending::Answer(Err(PointerError::ConnectionFailed { detail })),
            ),
        },
        Committing::ReleasingAll { cursor_id, left } => destroy_action(
            cursor_id,
            match left {
                Some(output_name) => Ending::Left { output_name, released: result },
                None => Ending::Forgotten { released: result },
            },
        ),
        Committing::Destroying { cursor_id, ending } => ActionView::Finish {
            cursor_id,
            connection: ConnectionUse::Close,
            reply: ending_reply(ending, result),
        },
    }
}

/// Every pointer that is alive holds a button.
pub open spec fn all_hold(t: Map<Seq<char>, PointerView>) -> bool {
    forall|cursor: Seq<char>| #[trigger]
        t.contains_key(cursor) ==> t[cursor].held.finite() && !t[cursor].held.is_empty()
}

fn destroy(cursor_id: String, ending: Ending) -> (r: Action)
    ensures
        r@ == destroy_action(cursor_id, ending),
{
    let mut requests: Vec<PointerRequest> = Vec::new();
    requests.push(PointerRequest::Destroy);
    let r = Action::Commit { requests, committing: Committing::Destroying { cursor_id, ending } };
    assert(r@ =~= destroy_action(cursor_id, ending));
    r
}

fn done(cursor_id: String) -> (r: Action)
    ensures
        r@ == done_action(cursor_id),
{
    Action::Finish { cursor_id, connection: ConnectionUse::Keep, reply: Ok(()) }
}

fn first_failure(first: Result<(), String>, second: Result<(), String>) -> (r: Result<(), String>)
    ensures
        r == both(first, second),
{
    match first {
        Ok(()) => second,
        Err(detail) => Err(detail),
    }
}

fn end(ending: Ending, destroyed: Result<(), String>) -> (r: Result<(), PointerError>)
    ensures
        r == ending_reply(ending, destroyed),
{
    match ending {
        Ending::Answer(reply) => reply,
        Ending::Forgotten { released } => match first_failure(released, destroyed) {
            Ok(()) => Ok(()),
            Err(detail) => Err(PointerError::ConnectionFailed { detail }),
        },
        Ending::Left { output_name, released } => {
            let cleanup = match first_failure(released, destroyed) {
                Ok(()) => None,
                Err(detail) => Some(detail),
            };
            Err(PointerError::LeftOutput { output_name, cleanup })
        },
    }
}

fn point_of_press(session: &SessionTarget, x: i32, y: i32) -> (r: (u32, u32))
    ensures
        r == press_point(*session, x, y),
{
    (
        match session.target_x {
            Some(target) => target,
            None => nearest_pixel(x as i64, session.output_w),
        },
        match session.target_y {
            Some(target) => target,
            None => nearest_pixel(y as i64, session.output_h),
        },
    )
}

/// What follows once a session was opened for a press, or was not.
pub fn opened(opening: Opening, result: Result<SessionTarget, String>) -> (r: Action)
    requires
        result matches Ok(session) ==> press_fits(session),
    ensures
        r@ == opened_action(opening, result),
{
    match result {
        Ok(session) => {
            let place = point_of_press(&session, opening.x, opening.y);
            let mut requests: Vec<PointerRequest> = Vec::new();
            requests.push(
                PointerRequest::Motion {
                    x: place.0,
                    y: place.1,
                    width: session.output_w,
                    height: session.output_h,
                },
            );
            requests.push(PointerRequest::Frame);
            requests.push(PointerRequest::Button { button: opening.button, pressed: true });
            requests.push(PointerRequest::Frame);
            let ghost asked = opening;
            let ghost found = session;
            let r = Action::Commit {
                requests,
                committing: Committing::Pressing {
                    cursor_id: opening.cursor_id,
                    session,
                    x: opening.x,
                    y: opening.y,
                    button: opening.button,
                },
            };
            assert(r@ =~= opened_action(asked, Ok(found)));
            r
        },
        Err(detail) => Action::Finish {
            cursor_id: opening.cursor_id,
            connection: ConnectionUse::Drop,
            reply: Err(PointerError::ConnectionFailed { detail }),
        },
    }
}

/// Whether `opened` has an answer for this session.
pub fn session_fits(session: &SessionTarget) -> (r: bool)
    ensures
        r == press_fits(*session),
{
    let wide = 1 <= session.output_w && session.output_w <= i32::MAX as u32;
    let high = 1 <= session.output_h && session.output_h <= i32::MAX as u32;
    (session.target_x.is_some() || wide) && (session.target_y.is_some() || high)
}

impl PointerTable {
    /// No pointers.
    pub fn new() -> (r: Self)
        ensures
            r@ == Map::<Seq<char>, PointerView>::empty(),
            all_hold(r@),
    {
        let r = PointerTable { active: NameMap::new() };
        assert(r@ =~= Map::<Seq<char>, PointerView>::empty());
        r
    }

    /// What follows a press.
    pub fn handle_press(
        &self,
        cursor_id: String,
        window_id: u64,
        x: i32,
        y: i32,
        button: u32,
    ) -> (r: Action)
        ensures
            r@ == press_action(self@, window_id, (Opening { cursor_id, x, y, button })),
    {
        if self.active.contains(cursor_id.as_str()) {
            let error = PointerError::AlreadyHeld { cursor_id: cursor_id.clone() };
            Action::Finish { cursor_id, connection: ConnectionUse::Keep, reply: Err(error) }
        } else {
            Action::Open { window_id, opening: Opening { cursor_id, x, y, button } }
        }
    }

    /// Whether a move of the cursor has an answer.
    pub fn can_move(&self, cursor_id: &str) -> (r: bool)
        ensures
            r == (self@.contains_key(cursor_id@) ==> move_fits(self@[cursor_id@])),
    {
        match self.active.get(cursor_id) {
            Some(pointer) => {
                let wide = 1 <= pointer.out_w && pointer.out_w <= i32::MAX as u32;
                let high = 1 <= pointer.out_h && pointer.out_h <= i32::MAX as u32;
                pointer.output_name.is_some() || (wide && high)
            },
            None => true,
        }
    }

    /// What follows a move.
    pub fn handle_move(&self, cursor_id: String, x: i32, y: i32) -> (r: Action)
        requires
            self@.contains_key(cursor_id@) ==> move_fits(self@[cursor_id@]),
        ensures
            r@ == move_action(self@, cursor_id, x, y),
    {
        match self.active.get(cursor_id.as_str()) {
            Some(pointer) => match &pointer.output_name {
                Some(output_name) => Action::Locate {
                    mapping: pointer.mapping,
                    x,
                    y,
                    locating: Locating { cursor_id, output_name: output_name.clone() },
                },
                None => {
                    let place = (
                        nearest_pixel(x as i64, pointer.out_w),
                        nearest_pixel(y as i64, pointer.out_h),
                    );
                    motion(pointer, cursor_id, place)
                },
            },
            None => {
                let error = PointerError::NothingToMove { cursor_id: cursor_id.clone() };
                Action::Finish { cursor_id, connection: ConnectionUse::Keep, reply: Err(error) }
            },
        }
    }

    /// What follows a release.
    pub fn handle_release(&self, cursor_id: String, button: u32) -> (r: Action)
        ensures
            r@ == release_action(self@, cursor_id, button),
    {
        if self.active.contains(cursor_id.as_str()) {
            let mut requests: Vec<PointerRequest> = Vec::new();
            requests.push(PointerRequest::Button { button, pressed: false });
            requests.push(PointerRequest::Frame);
            let ghost id = cursor_id;
            let r = Action::Commit {
                requests,
                committing: Committing::Releasing { cursor_id, button },
            };
            assert(r@ =~= release_action(self@, id, button));
            r
        } else {
            let error = PointerError::NothingToRelease { cursor_id: cursor_id.clone() };
            Action::Finish { cursor_id, connection: ConnectionUse::Keep, reply: Err(error) }
        }
    }

    /// What follows where a pointer is given up, because it is to be
    /// forgotten, or because a move left the output with the name `left`.
    pub fn release_all_and_forget(&self, cursor_id: String, left: Option<String>) -> (r: Action)
        ensures
            r@ == give_up_action(self@, cursor_id, left),
    {
        match self.active.get(cursor_id.as_str()) {
            Some(pointer) => {
                let requests = requests_to_release_all(&pointer.held);
                Action::Commit {
                    requests,
                    committing: Committing::ReleasingAll { cursor_id, left },
                }
            },
            None => {
                let reply = match left {
                    Some(output_name) => Err(
                        PointerError::LeftOutput { output_name, cleanup: None },
                    ),
                    None => Ok(()),
                };
                Action::Finish { cursor_id, connection: ConnectionUse::Close, reply }
            },
        }
    }

    /// What follows a command.
    pub fn handle(&self, cmd: Cmd) -> (r: Action)
        requires
            cmd matches Cmd::MoveTo { cursor_id, x, y } ==> (self@.contains_key(cursor_id@)
                ==> move_fits(self@[cursor_id@])),
        ensures
            r@ == command_action(self@, cmd),
    {
        match cmd {
            Cmd::Press { cursor_id, window_id, x, y, button } => self.handle_press(
                cursor_id,
                window_id,
                x,
                y,
                button,
            ),
            Cmd::MoveTo { cursor_id, x, y } => self.handle_move(cursor_id, x, y),
            Cmd::Release { cursor_id, button } => self.handle_release(cursor_id, button),
            Cmd::Forget { cursor_id } => self.release_all_and_forget(cursor_id, None),
        }
    }

    /// What follows once a move was located.
    pub fn located(&self, locating: Locating, x: Coordinate, y: Coordinate) -> (r: Action)
        ensures
            r@ == located_action(self@, locating, x, y),
    {
        match self.active.get(locating.cursor_id.as_str()) {
            Some(pointer) => match cached_output_point(x, y, pointer.out_w, pointer.out_h) {
                Some(place) => motion(pointer, locating.cursor_id, place),
                None => self.release_all_and_forget(
                    locating.cursor_id,
                    Some(locating.output_name),
                ),
            },
            None => {
                let error = PointerError::NothingToMove { cursor_id: locating.cursor_id.clone() };
                Action::Finish {
                    cursor_id: locating.cursor_id,
                    connection: ConnectionUse::Keep,
                    reply: Err(error),
                }
            },
        }
    }

    fn take_out(&mut self, cursor_id: &str) -> (r: Option<ActivePointer>)
        ensures
            final(self)@ == old(self)@.remove(cursor_id@),
            match r {
                Some(pointer) => old(self)@.contains_key(cursor_id@) && pointer@
                    == old(self)@[cursor_id@],
                None => !old(self)@.contains_key(cursor_id@),
            },
    {
        let ghost before = self@;
        let r = self.active.remove(cursor_id);
        assert(self@ =~= before.remove(cursor_id@));
        r
    }

    fn put_in(&mut self, cursor_id: String, pointer: ActivePointer)
        ensures
            final(self)@ == old(self)@.insert(cursor_id@, pointer@),
    {
        let ghost before = self@;
        self.active.insert(cursor_id, pointer);
        assert(self@ =~= before.insert(cursor_id@, pointer@));
    }

    /// What follows a roundtrip, which succeeded or failed.
    pub fn committed(&mut self, committing: Committing, result: Result<(), String>) -> (r: Action)
        ensures
            final(self)@ == committed_table(old(self)@, committing, result),
            r@ == committed_action(old(self)@, committing, result),
    {
        match committing {
            Committing::Pressing { cursor_id, session, x, y, button } => match result {
                Ok(()) => {
                    let output = point_of_press(&session, x, y);
                    let mut held: HashSet<u32> = HashSet::new();
                    held.insert(button);
                    let ghost found = session;
                    let pointer = ActivePointer {
                        held,
                        out_w: session.output_w,
                        out_h: session.output_h,
                        mapping: DragMapping {
                            capture_x_bits: session.capture_x_bits,
                            capture_y_bits: session.capture_y_bits,
                            scale_bits: session.scale_bits,
                            pressed: (x, y),
                            output,
                        },
                        output_name: session.output_name,
                    };
                    assert(pointer@ =~= pressed_pointer(found, x, y, button));
                    self.put_in(cursor_id.clone(), pointer);
                    Action::Finish { cursor_id, connection: ConnectionUse::Adopt, reply: Ok(()) }
                },
                Err(detail) => Action::Finish {
                    cursor_id,
                    connection: ConnectionUse::Drop,
                    reply: Err(PointerError::ConnectionFailed { detail }),
                },
            },
            Committing::Moving { cursor_id } => match result {
                Ok(()) => done(cursor_id),
                Err(detail) => {
                    self.take_out(cursor_id.as_str());
                    destroy(
                        cursor_id,
                        Ending::Answer(Err(PointerError::ConnectionFailed { detail })),
                    )
                },
            },
            Committing::Releasing { cursor_id, button } => match result {
                Ok(()) => {
                    let ghost before = self@;
                    match self.take_out(cursor_id.as_str()) {
                        Some(pointer) => {
                            let mut pointer = pointer;
                            let ghost view = pointer@;
                            pointer.held.remove(&button);
                            assert(pointer@ =~= without_button(view, button));
                            if pointer.held.is_empty() {
                                destroy(cursor_id, Ending::Answer(Ok(())))
                            } else {
                                self.put_in(cursor_id.clone(), pointer);
                                assert(self@ =~= before.insert(
                                    cursor_id@,
                                    without_button(view, button),
                                ));
                                done(cursor_id)
                            }
                        },
                        None => {
                            assert(self@ =~= before);
                            done(cursor_id)
                        },
                    }
                },
                Err(detail) => {
                    self.take_out(cursor_id.as_str());
                    destroy(
                        cursor_id,
                        Ending::Answer(Err(PointerError::ConnectionFailed { detail })),
                    )
                },
            },
            Committing::ReleasingAll { cursor_id, left } => {
                self.take_out(cursor_id.as_str());
                let ending = match left {
                    Some(output_name) => Ending::Left { output_name, released: result },
                    None => Ending::Forgotten { released: result },
                };
                destroy(cursor_id, ending)
            },
            Committing::Destroying { cursor_id, ending } => Action::Finish {
                cursor_id,
                connection: ConnectionUse::Close,
                reply: end(ending, result),
            },
        }
    }
}

fn motion(pointer: &ActivePointer, cursor_id: String, place: (u32, u32)) -> (r: Action)
    ensures
        r@ == motion_action(pointer@, cursor_id, place),
{
    let mut requests: Vec<PointerRequest> = Vec::new();
    requests.push(
        PointerRequest::Motion {
            x: place.0,
            y: place.1,
            width: pointer.out_w,
            height: pointer.out_h,
        },
    );
    requests.push(PointerRequest::Frame);
    let ghost id = cursor_id;
    let r = Action::Commit { requests, committing: Committing::Moving { cursor_id } };
    assert(r@ =~= motion_action(pointer@, id, place));
    r
}

} // verus!
