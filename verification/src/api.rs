//! Decisions of the local API server: which colour command a request body
//! asks for, and what colour a binary stream frame carries. (The HTTP and
//! WebSocket plumbing runs in the application.)

use vstd::prelude::*;

verus! {

/// The colour command of a `/color` request.
#[derive(Debug, Clone, Copy, PartialEq, Eq)]
pub enum ColorChoice {
    /// Hue and saturation were both given.
    Hsv(u16, u8),
    /// Red, green and blue were all given (and not both hue and saturation).
    Rgb(u8, u8, u8),
    /// Neither complete form was given: the request is rejected (400).
    Invalid,
}

/// Picks the colour command of a `/color` body: `{hue, saturation}` wins,
/// then `{r, g, b}`; anything else is invalid.
pub fn color_choice(hue: Option<u16>, saturation: Option<u8>, r: Option<u8>, g: Option<u8>, b: Option<u8>) -> (c:
    ColorChoice)
    ensures
        (hue is Some && saturation is Some) ==> c == ColorChoice::Hsv(hue->0, saturation->0),
        !(hue is Some && saturation is Some) && r is Some && g is Some && b is Some ==> c
            == ColorChoice::Rgb(r->0, g->0, b->0),
        !(hue is Some && saturation is Some) && !(r is Some && g is Some && b is Some) ==> c
            == ColorChoice::Invalid,
{
    match (hue, saturation, r, g, b) {
        (Some(h), Some(s), _, _, _) => ColorChoice::Hsv(h, s),
        (_, _, Some(rr), Some(gg), Some(bb)) => ColorChoice::Rgb(rr, gg, bb),
        _ => ColorChoice::Invalid,
    }
}

/// The colour of a binary stream frame: its first three bytes as `[r, g, b]`
/// when it has at least three; shorter frames are ignored.
pub fn binary_frame_color(frame: &[u8]) -> (c: Option<(u8, u8, u8)>)
    ensures
        frame@.len() >= 3 ==> c == Some((frame@[0], frame@[1], frame@[2])),
        frame@.len() < 3 ==> c is None,
{
    if frame.len() >= 3 {
        Some((frame[0], frame[1], frame[2]))
    } else {
        None
    }
}

} // verus!
