//! Commands of the Delta X 2 firmware protocol.
//!
//! Every motion command carries `FEEDBACK:ok`, which makes the firmware
//! answer `ok` once the command has been executed.

use vstd::prelude::*;

verus! {

/// The physical axes of the robot.
#[derive(Debug, Clone, Copy)]
pub enum Axis {
    /// Horizontal X axis.
    X,
    /// Horizontal Y axis.
    Y,
    /// Vertical Z axis (0 at the homed top position, negative downwards).
    Z,
}

/// The upper-case letter that names `axis` in G-code and in position reports.
pub open spec fn axis_letter(axis: Axis) -> char {
    match axis {
        Axis::X => 'X',
        Axis::Y => 'Y',
        Axis::Z => 'Z',
    }
}

/// The lower-case form of the letter that names `axis`.
pub open spec fn axis_letter_lower(axis: Axis) -> char {
    match axis {
        Axis::X => 'x',
        Axis::Y => 'y',
        Axis::Z => 'z',
    }
}

/// The identity query; a Delta robot answers `YesDelta`.
pub open spec fn identity_query() -> Seq<char> {
    "IsDelta\n"@
}

/// The position query; the firmware answers `X:<x> Y:<y> Z:<z> W:<w> U:<u>`.
pub open spec fn position_query() -> Seq<char> {
    "Position\n"@
}

/// Switch to relative positioning (jog moves).
pub open spec fn relative_mode() -> Seq<char> {
    "G91 FEEDBACK:ok\n"@
}

/// Switch back to absolute positioning.
pub open spec fn absolute_mode() -> Seq<char> {
    "G90 FEEDBACK:ok\n"@
}

/// Home the X, Y and Z axes at their top endstops.
pub open spec fn homing() -> Seq<char> {
    "G28 FEEDBACK:ok\n"@
}

/// The move of `axis` by `displacement`, the displacement written out as
/// decimal text: `G0 <axis><displacement> FEEDBACK:ok`.
pub open spec fn move_command(axis: Axis, displacement: Seq<char>) -> Seq<char> {
    "G0 "@ + seq![axis_letter(axis)] + displacement + " FEEDBACK:ok\n"@
}

/// The bytes sent on the wire for the command text `command`.
pub open spec fn wire(command: Seq<char>) -> Seq<u8> {
    vstd::utf8::encode_utf8(command)
}

/// The bytes of the identity query.
pub fn identity_query_bytes() -> (b: Vec<u8>)
    ensures
        b@ == wire(identity_query()),
{
    "IsDelta\n".as_bytes_vec()
}

/// The bytes of the position query.
pub fn position_query_bytes() -> (b: Vec<u8>)
    ensures
        b@ == wire(position_query()),
{
    "Position\n".as_bytes_vec()
}

/// The bytes of the switch to relative positioning.
pub fn relative_mode_bytes() -> (b: Vec<u8>)
    ensures
        b@ == wire(relative_mode()),
{
    "G91 FEEDBACK:ok\n".as_bytes_vec()
}

/// The bytes of the switch to absolute positioning.
pub fn absolute_mode_bytes() -> (b: Vec<u8>)
    ensures
        b@ == wire(absolute_mode()),
{
    "G90 FEEDBACK:ok\n".as_bytes_vec()
}

/// The bytes of the homing command.
pub fn homing_bytes() -> (b: Vec<u8>)
    ensures
        b@ == wire(homing()),
{
    "G28 FEEDBACK:ok\n".as_bytes_vec()
}

/// Formats the G0 move of `axis` by `displacement` (the amount in mm,
/// already written as decimal text), appending `FEEDBACK:ok` so the
/// firmware acknowledges the move once it is done.
pub fn create_mv_command(axis: Axis, displacement: &str) -> (cmd: String)
    ensures
        cmd@ == move_command(axis, displacement@),
{
    let mut cmd = String::from_str("G0 ");
    let letter = match axis {
        Axis::X => "X",
        Axis::Y => "Y",
        Axis::Z => "Z",
    };
    proof {
        reveal_strlit("X");
        reveal_strlit("Y");
        reveal_strlit("Z");
    }
    assert(letter@ == seq![axis_letter(axis)]);
    cmd.append(letter);
    cmd.append(displacement);
    cmd.append(" FEEDBACK:ok\n");
    cmd
}

} // verus!
