use vstd::prelude::*;
use vstd::string::StrSliceExecFns;
use vstd::string::StringExecFns;
use crate::numbers::dec_digits;
use crate::numbers::render_digits;
use crate::position::Position;

verus! {

/// The textual form of a position: line, a colon, column.
pub open spec fn pos_text(pos: Position) -> Seq<char> {
    dec_digits(pos.line as int) + ":"@ + dec_digits(pos.index as int)
}

fn render_pos(pos: Position) -> (r: String)
    ensures
        r@ == pos_text(pos),
{
    let mut r = render_digits(pos.line as u128);
    r.append(":");
    let col = render_digits(pos.index as u128);
    r.append(col.as_str());
    proof {
        assert(r@ =~= pos_text(pos));
    }
    r
}

/// The rendered diagnostic for a positioned load failure.
pub fn error(msg: String, pos: Position) -> (r: String)
    ensures
        r@ == "ERROR: "@ + msg@ + " (at "@ + pos_text(pos) + ")"@,
{
    let mut r: String = "ERROR: ".to_owned();
    r.append(msg.as_str());
    r.append(" (at ");
    let p = render_pos(pos);
    r.append(p.as_str());
    r.append(")");
    proof {
        assert(r@ =~= "ERROR: "@ + msg@ + " (at "@ + pos_text(pos) + ")"@);
    }
    r
}

/// The rendered diagnostic for a positioned load failure, from a slice.
pub fn error_str(msg: &str, pos: Position) -> (r: String)
    ensures
        r@ == "ERROR: "@ + msg@ + " (at "@ + pos_text(pos) + ")"@,
{
    error(msg.to_owned(), pos)
}

/// The rendered diagnostic for a load failure with no known position.
pub fn error_unknown_pos(msg: String) -> (r: String)
    ensures
        r@ == "ERROR: "@ + msg@ + " (unknown position)"@,
{
    let mut r: String = "ERROR: ".to_owned();
    r.append(msg.as_str());
    r.append(" (unknown position)");
    proof {
        assert(r@ =~= "ERROR: "@ + msg@ + " (unknown position)"@);
    }
    r
}

/// The rendered diagnostic for a positioned runtime failure.
pub fn runtime_error(msg: String, pos: Position) -> (r: String)
    ensures
        r@ == "RUNTIME ERROR: "@ + msg@ + " (at "@ + pos_text(pos) + ")"@,
{
    let mut r: String = "RUNTIME ERROR: ".to_owned();
    r.append(msg.as_str());
    r.append(" (at ");
    let p = render_pos(pos);
    r.append(p.as_str());
    r.append(")");
    proof {
        assert(r@ =~= "RUNTIME ERROR: "@ + msg@ + " (at "@ + pos_text(pos) + ")"@);
    }
    r
}

/// The rendered diagnostic for a positioned runtime failure, from a slice.
pub fn runtime_error_str(msg: &str, pos: Position) -> (r: String)
    ensures
        r@ == "RUNTIME ERROR: "@ + msg@ + " (at "@ + pos_text(pos) + ")"@,
{
    runtime_error(msg.to_owned(), pos)
}

/// The rendered diagnostic for a runtime failure with no known position.
pub fn runtime_error_unknown_pos(msg: String) -> (r: String)
    ensures
        r@ == "RUNTIME ERROR: "@ + msg@ + " (unknown position)"@,
{
    let mut r: String = "RUNTIME ERROR: ".to_owned();
    r.append(msg.as_str());
    r.append(" (unknown position)");
    proof {
        assert(r@ =~= "RUNTIME ERROR: "@ + msg@ + " (unknown position)"@);
    }
    r
}

/// The rendered text of a non-fatal warning.
pub fn warning(msg: String, pos: Position) -> (r: String)
    ensures
        r@ == "WARNING: "@ + msg@ + " (at "@ + pos_text(pos) + ")"@,
{
    let mut r: String = "WARNING: ".to_owned();
    r.append(msg.as_str());
    r.append(" (at ");
    let p = render_pos(pos);
    r.append(p.as_str());
    r.append(")");
    proof {
        assert(r@ =~= "WARNING: "@ + msg@ + " (at "@ + pos_text(pos) + ")"@);
    }
    r
}

} // verus!
