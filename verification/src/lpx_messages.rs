//! SysEx messages for the LPX: programmer's mode, a pad in RGB colour and
//! the blank screen; and reading a colour from the command line.
use vstd::prelude::*;
use crate::text::{parse_unsigned, parse_unsigned_str};

verus! {

/// The SysEx message that puts the LPX into programmer's mode.
pub open spec fn programmers_mode_message() -> Seq<u8> {
    seq![240u8, 0u8, 32u8, 41u8, 2u8, 12u8, 0u8, 127u8, 247u8]
}

/// The message that puts the LPX into programmer's mode.
pub fn programmers_mode_msg() -> (r: Vec<u8>)
    ensures
        r@ == programmers_mode_message(),
{
    let r: Vec<u8> = vec![240, 0, 32, 41, 2, 12, 0, 127, 247];
    assert(r@ =~= programmers_mode_message());
    r
}

/// The SysEx message that lights pad `pad` in the RGB colour
/// (`red`, `green`, `blue`).
pub open spec fn rgb_message(pad: u8, red: u8, green: u8, blue: u8) -> Seq<u8> {
    seq![240u8, 0u8, 32u8, 41u8, 2u8, 12u8, 3u8, 3u8, pad, red, green, blue, 247u8]
}

/// The message that lights pad `pad` in an RGB colour.
pub fn rgb_msg(pad: u8, red: u8, green: u8, blue: u8) -> (r: Vec<u8>)
    ensures
        r@ == rgb_message(pad, red, green, blue),
{
    let r: Vec<u8> = vec![240, 0, 32, 41, 2, 12, 3, 3, pad, red, green, blue, 247];
    assert(r@ =~= rgb_message(pad, red, green, blue));
    r
}

/// The `k`-th pad of the eight by eight grid, counted row by row from the
/// bottom left: rows 1 to 8, columns 1 to 8, pad `10 * row + column`.
pub open spec fn grid_pad(k: int) -> int {
    10 * (k / 8 + 1) + k % 8 + 1
}

/// The colour data that turns the first `n` grid pads black: for each,
/// the palette flag 0, the pad, and colour 0.
pub open spec fn black_pads(n: nat) -> Seq<u8>
    decreases n,
{
    if n == 0 {
        Seq::empty()
    } else {
        black_pads((n - 1) as nat) + seq![0u8, grid_pad(n - 1) as u8, 0u8]
    }
}

/// The SysEx message that turns every grid pad black.
pub open spec fn blank_screen_message() -> Seq<u8> {
    seq![240u8, 0u8, 32u8, 41u8, 2u8, 12u8, 3u8] + black_pads(64) + seq![247u8]
}

/// The message that blanks the LPX screen.
pub fn blank_screen_msg() -> (r: Vec<u8>)
    ensures
        r@ == blank_screen_message(),
{
    let mut r: Vec<u8> = vec![240, 0, 32, 41, 2, 12, 3];
    let ghost header = r@;
    let mut k: u8 = 0;
    while k < 64
        invariant
            k <= 64,
            r@ == header + black_pads(k as nat),
            header == seq![240u8, 0u8, 32u8, 41u8, 2u8, 12u8, 3u8],
        decreases 64 - k,
    {
        let pad: u8 = 10 * (k / 8 + 1) + k % 8 + 1;
        r.push(0);
        r.push(pad);
        r.push(0);
        assert(black_pads((k + 1) as nat) == black_pads(k as nat) + seq![0u8, pad, 0u8]);
        assert(r@ =~= header + black_pads((k + 1) as nat));
        k = k + 1;
    }
    r.push(247);
    assert(r@ =~= blank_screen_message());
    r
}

/// A command line argument that is not a number from 0 to 255.
pub struct ArgError {
    /// The position of the argument.
    pub index: usize,
}

/// Read a byte as `str::parse::<u8>` does.
pub fn parse_byte(s: &str) -> (r: Option<u8>)
    ensures
        r matches Some(v) ==> parse_unsigned(s@, 255) == Some(v as nat),
        r is None ==> parse_unsigned(s@, 255) is None,
{
    match parse_unsigned_str(s, 255) {
        Some(v) => Some(v as u8),
        None => None,
    }
}

/// The colour (red, green, blue) given on the command line
/// `lpx_colour <pad> <red> <green> <blue>`: the arguments at positions 2,
/// 3 and 4 (position 1 is the pad).  The error names the first of them
/// that is not a byte.
pub fn get_colour(args: &Vec<String>) -> (r: Result<(u8, u8, u8), ArgError>)
    requires
        args@.len() >= 5,
    ensures
        r matches Ok((red, green, blue)) ==> {
            &&& parse_unsigned(args@[2]@, 255) == Some(red as nat)
            &&& parse_unsigned(args@[3]@, 255) == Some(green as nat)
            &&& parse_unsigned(args@[4]@, 255) == Some(blue as nat)
        },
        r matches Err(e) ==> {
            &&& 2 <= e.index <= 4
            &&& parse_unsigned(args@[e.index as int]@, 255) is None
            &&& forall|j: int| 2 <= j < e.index ==> (parse_unsigned(#[trigger] args@[j]@, 255) is Some)
        },
        r is Ok <==> (forall|j: int| 2 <= j <= 4 ==> (parse_unsigned(#[trigger] args@[j]@, 255) is Some)),
{
    let red = match parse_byte(args[2].as_str()) {
        Some(v) => v,
        None => return Err(ArgError { index: 2 }),
    };
    let green = match parse_byte(args[3].as_str()) {
        Some(v) => v,
        None => return Err(ArgError { index: 3 }),
    };
    let blue = match parse_byte(args[4].as_str()) {
        Some(v) => v,
        None => return Err(ArgError { index: 4 }),
    };
    Ok((red, green, blue))
}

} // verus!
