//! The idle-screen mascot: its expression and its bitmap.

use vstd::prelude::*;

use crate::text::chars_of;

verus! {

/// Mascot bounding box in cells: an 11-wide alien monster drawn purely with
/// half-blocks (two vertical pixels per cell): horns, a wide head with two
/// eyes, side arms, and legs. Its two walk frames alternate for an idle wiggle.
/// Height is fixed so movement and poke hit-testing stay stable.
pub const MASCOT_W: u16 = 11;

pub const MASCOT_H: u16 = 4;

/// The mascot's current expression, drawn as eye pixels (no letters, no mouth).
/// Idle moods (Normal/Happy/Wink/Look/Squint/Cool/Curious) are rolled at random
/// and held briefly; Blink flickers over any of them; poke/drag force Surprised
/// and Dizzy.
#[derive(Debug, Clone, Copy, PartialEq, Eq, Structural)]
pub enum Face {
    Normal,
    Blink,
    Happy,
    Wink,
    Look,
    Squint,
    Cool,
    Curious,
    Surprised,
    Dizzy,
}

/// What a pixel of the mascot is made of.
#[derive(Debug, Clone, Copy, PartialEq, Eq, Structural)]
pub enum Pixel {
    /// Transparent.
    Clear,
    /// The body.
    Body,
    /// The accent: dizzy eyes.
    Accent,
    /// The eyes.
    Eye,
}

/// The idle moods that get rolled at random (never the event-driven ones).
/// Weighted by repetition so Normal shows most often.
pub open spec fn idle_face(i: nat) -> Face {
    let k = i % 10;
    if k < 3 {
        Face::Normal
    } else if k < 5 {
        Face::Happy
    } else if k == 5 {
        Face::Wink
    } else if k == 6 {
        Face::Look
    } else if k == 7 {
        Face::Squint
    } else if k == 8 {
        Face::Cool
    } else {
        Face::Curious
    }
}

/// The idle mood that a roll stands for.
pub fn idle_mood(i: usize) -> (r: Face)
    ensures
        r == idle_face(i as nat),
{
    let k = i % 10;
    if k < 3 {
        Face::Normal
    } else if k < 5 {
        Face::Happy
    } else if k == 5 {
        Face::Wink
    } else if k == 6 {
        Face::Look
    } else if k == 7 {
        Face::Squint
    } else if k == 8 {
        Face::Cool
    } else {
        Face::Curious
    }
}

/// The next state of the xorshift64 generator behind the random walk.
pub open spec fn xorshift(x: u64) -> u64 {
    let a = x ^ (x << 13u64);
    let b = a ^ (a >> 7u64);
    b ^ (b << 17u64)
}

/// Advances the random walk.
pub fn next_random(x: u64) -> (r: u64)
    ensures
        r == xorshift(x),
{
    let a = x ^ (x << 13u64);
    let b = a ^ (a >> 7u64);
    b ^ (b << 17u64)
}

/// The generator never falls into the state that it could not leave.
pub proof fn law_random_stays_alive(x: u64)
    requires
        x != 0,
    ensures
        xorshift(x) != 0,
{
    assert(x != 0 ==> (x ^ (x << 13u64)) != 0) by (bit_vector);
    let a = x ^ (x << 13u64);
    assert(a != 0 ==> (a ^ (a >> 7u64)) != 0) by (bit_vector);
    let b = a ^ (a >> 7u64);
    assert(b != 0 ==> (b ^ (b << 17u64)) != 0) by (bit_vector);
}

/// The current expression. Dragging looks dizzy, a poke is surprised, and
/// otherwise it wears its current idle mood with an occasional blink
/// flickering over the top: for 160 of every 4200 milliseconds of its age.
pub fn face(dragging: bool, flashing: bool, age_ms: u64, mood: Face) -> (r: Face)
    ensures
        r == if dragging {
            Face::Dizzy
        } else if flashing {
            Face::Surprised
        } else if age_ms % 4200 < 160 {
            Face::Blink
        } else {
            mood
        },
{
    if dragging {
        return Face::Dizzy;
    }
    if flashing {
        return Face::Surprised;
    }
    if age_ms % 4200 < 160 {
        return Face::Blink;
    }
    mood
}

/// Row `r` of a walk frame.
pub open spec fn walk_row(stride: bool, r: int) -> Seq<char> {
    if stride {
        if r == 0 {
            "..B.....B.."@
        } else if r == 1 {
            "B..B...B..B"@
        } else if r == 2 {
            "B.BBBBBBB.B"@
        } else if r == 3 {
            "BBBBBBBBBBB"@
        } else if r == 4 {
            "BBBBBBBBBBB"@
        } else if r == 5 {
            ".BBBBBBBBB."@
        } else if r == 6 {
            "..B.....B.."@
        } else {
            ".B.......B."@
        }
    } else {
        if r == 0 {
            "..B.....B.."@
        } else if r == 1 {
            "...B...B..."@
        } else if r == 2 {
            "..BBBBBBB.."@
        } else if r == 3 {
            ".BBBBBBBBB."@
        } else if r == 4 {
            "BBBBBBBBBBB"@
        } else if r == 5 {
            "B.BBBBBBB.B"@
        } else if r == 6 {
            "B.B.....B.B"@
        } else {
            "...BB.BB..."@
        }
    }
}

/// How far row `r` slides: the horns and the legs slide by `lean`, the core
/// body stays put.
pub open spec fn slide(lean: int, r: int) -> int {
    if r <= 1 || r >= 6 {
        lean
    } else {
        0
    }
}

/// Whether the body covers a pixel.
pub open spec fn body_at(stride: bool, lean: int, r: int, c: int) -> bool {
    let k = c - slide(lean, r);
    0 <= k < 11 && walk_row(stride, r)[k] == 'B'
}

/// What the expression puts on a pixel. The eyes stand at columns 3 and 7;
/// `side` turns the sided faces and `gaze` is where a normal face looks.
pub open spec fn eye_at(face: Face, side: int, gaze: int, r: int, c: int) -> Option<Pixel> {
    match face {
        Face::Blink => None,
        Face::Surprised => if (r == 3 || r == 4) && (c == 3 || c == 7) {
            Some(Pixel::Eye)
        } else {
            None
        },
        Face::Dizzy => if (r == 3 || r == 4) && (c == 3 || c == 7) {
            Some(Pixel::Accent)
        } else {
            None
        },
        Face::Happy => if r == 2 && (c == 3 || c == 7) {
            Some(Pixel::Eye)
        } else {
            None
        },
        Face::Wink => if r == 3 && c == (if side < 0 {
            7int
        } else {
            3
        }) {
            Some(Pixel::Eye)
        } else {
            None
        },
        Face::Look => if r == 3 && (c == 3 + side || c == 7 + side) {
            Some(Pixel::Eye)
        } else {
            None
        },
        Face::Squint => if r == 3 && (c == 4 || c == 6) {
            Some(Pixel::Eye)
        } else {
            None
        },
        Face::Cool => if r == 3 && 3 <= c <= 7 {
            Some(Pixel::Eye)
        } else {
            None
        },
        Face::Curious => if r == 2 && (c == 2 || c == 8) {
            Some(Pixel::Eye)
        } else {
            None
        },
        Face::Normal => if r == 3 && (c == 3 + gaze || c == 7 + gaze) {
            Some(Pixel::Eye)
        } else {
            None
        },
    }
}

/// A pixel of the mascot.
pub open spec fn pixel_at(
    stride: bool,
    lean: int,
    face: Face,
    side: int,
    gaze: int,
    r: int,
    c: int,
) -> Pixel {
    match eye_at(face, side, gaze, r, c) {
        Some(p) => p,
        None => if body_at(stride, lean, r, c) {
            Pixel::Body
        } else {
            Pixel::Clear
        },
    }
}

/// Row `r` of a walk frame.
fn frame_row(stride: bool, r: usize) -> (s: Vec<char>)
    requires
        r < 8,
    ensures
        s@ == walk_row(stride, r as int),
        s@.len() == 11,
{
    proof {
        reveal_strlit("..B.....B..");
        reveal_strlit("B..B...B..B");
        reveal_strlit("B.BBBBBBB.B");
        reveal_strlit("BBBBBBBBBBB");
        reveal_strlit(".BBBBBBBBB.");
        reveal_strlit(".B.......B.");
        reveal_strlit("...B...B...");
        reveal_strlit("..BBBBBBB..");
        reveal_strlit("B.B.....B.B");
        reveal_strlit("...BB.BB...");
    }
    let text = if stride {
        if r == 0 {
            "..B.....B.."
        } else if r == 1 {
            "B..B...B..B"
        } else if r == 2 {
            "B.BBBBBBB.B"
        } else if r == 3 {
            "BBBBBBBBBBB"
        } else if r == 4 {
            "BBBBBBBBBBB"
        } else if r == 5 {
            ".BBBBBBBBB."
        } else if r == 6 {
            "..B.....B.."
        } else {
            ".B.......B."
        }
    } else {
        if r == 0 {
            "..B.....B.."
        } else if r == 1 {
            "...B...B..."
        } else if r == 2 {
            "..BBBBBBB.."
        } else if r == 3 {
            ".BBBBBBBBB."
        } else if r == 4 {
            "BBBBBBBBBBB"
        } else if r == 5 {
            "B.BBBBBBB.B"
        } else if r == 6 {
            "B.B.....B.B"
        } else {
            "...BB.BB..."
        }
    };
    chars_of(text)
}

/// What the expression puts on a pixel.
fn eye_pixel(face: Face, side: i16, gaze: i16, r: usize, c: i16) -> (p: Option<Pixel>)
    requires
        -1 <= side <= 1,
        -1 <= gaze <= 1,
    ensures
        p == eye_at(face, side as int, gaze as int, r as int, c as int),
{
    let (hit, pixel) = match face {
        Face::Blink => (false, Pixel::Eye),
        // Wide-open.
        Face::Surprised => ((r == 3 || r == 4) && (c == 3 || c == 7), Pixel::Eye),
        // Accent-coloured daze.
        Face::Dizzy => ((r == 3 || r == 4) && (c == 3 || c == 7), Pixel::Accent),
        // Raised, cheerful.
        Face::Happy => (r == 2 && (c == 3 || c == 7), Pixel::Eye),
        // One eye open, the other shut.
        Face::Wink => (r == 3 && (if side < 0 {
            c == 7
        } else {
            c == 3
        }), Pixel::Eye),
        // A steady sidelong glance, both eyes shifted together.
        Face::Look => (r == 3 && (c == 3 + side || c == 7 + side), Pixel::Eye),
        // Eyes drawn inward for a suspicious, narrowed look.
        Face::Squint => (r == 3 && (c == 4 || c == 6), Pixel::Eye),
        // A horizontal visor bar: shades on.
        Face::Cool => (r == 3 && 3 <= c && c <= 7, Pixel::Eye),
        // Wide, high, spread-apart eyes: intrigued.
        Face::Curious => (r == 2 && (c == 2 || c == 8), Pixel::Eye),
        Face::Normal => (r == 3 && (c == 3 + gaze || c == 7 + gaze), Pixel::Eye),
    };
    if hit {
        Some(pixel)
    } else {
        None
    }
}

/// The mascot as a material bitmap, two vertical pixels per rendered cell: eight
/// rows of eleven pixels. Two walk frames alternate for an idle wiggle, the
/// horns and legs sway by `lean`, and the expression lives entirely in the eyes.
pub fn frame(stride: bool, lean: i16, face: Face, side: i16, gaze: i16) -> (g: Vec<Vec<Pixel>>)
    requires
        -1 <= lean <= 1,
        -1 <= side <= 1,
        -1 <= gaze <= 1,
    ensures
        g@.len() == 8,
        forall|r: int| 0 <= r < 8 ==> (#[trigger] g@[r])@.len() == 11,
        forall|r: int, c: int|
            0 <= r < 8 && 0 <= c < 11 ==> (#[trigger] g@[r]@[c]) == pixel_at(
                stride,
                lean as int,
                face,
                side as int,
                gaze as int,
                r,
                c,
            ),
{
    let mut g: Vec<Vec<Pixel>> = Vec::new();
    let mut r: usize = 0;
    while r < 8
        invariant
            r <= 8,
            -1 <= lean <= 1,
            -1 <= side <= 1,
            -1 <= gaze <= 1,
            g@.len() == r,
            forall|k: int| 0 <= k < r ==> (#[trigger] g@[k])@.len() == 11,
            forall|k: int, c: int|
                0 <= k < r && 0 <= c < 11 ==> (#[trigger] g@[k]@[c]) == pixel_at(
                    stride,
                    lean as int,
                    face,
                    side as int,
                    gaze as int,
                    k,
                    c,
                ),
        decreases 8 - r,
    {
        let row = frame_row(stride, r);
        let limb = r <= 1 || r >= 6;
        let mut out: Vec<Pixel> = Vec::new();
        let mut c: i16 = 0;
        while c < 11
            invariant
                0 <= c <= 11,
                r < 8,
                -1 <= lean <= 1,
                -1 <= side <= 1,
                -1 <= gaze <= 1,
                limb == (r <= 1 || r >= 6),
                row@ == walk_row(stride, r as int),
                row@.len() == 11,
                out@.len() == c,
                forall|k: int|
                    0 <= k < c ==> (#[trigger] out@[k]) == pixel_at(
                        stride,
                        lean as int,
                        face,
                        side as int,
                        gaze as int,
                        r as int,
                        k,
                    ),
            decreases 11 - c,
        {
            let k: i16 = if limb {
                c - lean
            } else {
                c
            };
            let body = 0 <= k && k < 11 && row[k as usize] == 'B';
            let p = match eye_pixel(face, side, gaze, r, c) {
                Some(p) => p,
                None => if body {
                    Pixel::Body
                } else {
                    Pixel::Clear
                },
            };
            out.push(p);
            c += 1;
        }
        g.push(out);
        r += 1;
    }
    g
}

/// Every ten moods in a row hold three normal ones and two happy ones, and one of
/// each other idle mood; none is a mood that an event brings.
pub proof fn law_moods_come_around(i: nat)
    ensures
        idle_face(i + 10) == idle_face(i),
        idle_face(i) == Face::Normal <==> i % 10 < 3,
        idle_face(i) == Face::Happy <==> 3 <= i % 10 < 5,
        idle_face(i) != Face::Blink && idle_face(i) != Face::Surprised && idle_face(i)
            != Face::Dizzy,
        i % 10 >= 5 ==> (forall|j: nat|
            j % 10 >= 5 && #[trigger] idle_face(j) == idle_face(i) ==> j % 10 == i % 10),
{
}

/// Both eyes of a face that is turned nowhere are alike: what stands on the left
/// half stands mirrored on the right.
pub proof fn law_straight_faces_are_even(face: Face, r: int, c: int)
    requires
        face != Face::Wink,
        0 <= c < 11,
    ensures
        eye_at(face, 0, 0, r, c) == eye_at(face, 0, 0, r, 10 - c),
        eye_at(Face::Blink, 0, 0, r, c) is None,
{
}

/// Gaze and side move the eyes by a column, and both of them alike.
pub proof fn law_eyes_move_together(side: int, gaze: int, r: int, c: int)
    ensures
        eye_at(Face::Normal, side, gaze, r, c + gaze) == eye_at(Face::Normal, side, 0, r, c),
        eye_at(Face::Look, side, gaze, r, c + side) == eye_at(Face::Look, 0, gaze, r, c),
        eye_at(Face::Wink, -1, gaze, r, c) == eye_at(Face::Wink, 1, gaze, r, 10 - c),
{
}

/// Leaning slides the horns and the legs and leaves the body: a pixel that slid
/// is the one from before, as many columns on.
pub proof fn law_leaning_slides_horns_and_legs(stride: bool, lean: int, r: int, c: int)
    ensures
        r <= 1 || r >= 6 ==> body_at(stride, lean, r, c + lean) == body_at(stride, 0, r, c),
        2 <= r <= 5 ==> body_at(stride, lean, r, c) == body_at(stride, 0, r, c),
{
}

} // verus!
