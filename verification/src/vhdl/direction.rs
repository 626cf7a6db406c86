use vstd::prelude::*;
use vstd::string::StringExecFns;

verus! {

/// The flow direction of a port.
#[derive(Clone, Copy, Debug, PartialEq, Eq, Structural)]
pub enum Direction {
    IN,
    OUT,
    INOUT,
    BUFFER,
}

impl Direction {
    /// The mirrored direction: IN and OUT swap, INOUT stays, and BUFFER
    /// (a driven output with readback) mirrors to a plain input.
    pub open spec fn spec_inverted(self) -> Direction {
        match self {
            Direction::IN => Direction::OUT,
            Direction::OUT => Direction::IN,
            Direction::INOUT => Direction::INOUT,
            Direction::BUFFER => Direction::IN,
        }
    }

    /// The keyword that renders this direction.
    pub open spec fn spec_keyword(self) -> Seq<char> {
        match self {
            Direction::IN => "in"@,
            Direction::OUT => "out"@,
            Direction::INOUT => "inout"@,
            Direction::BUFFER => "buffer"@,
        }
    }

    pub fn invert(&mut self)
        ensures
            *final(self) == old(self).spec_inverted(),
    {
        match self {
            Direction::IN => { *self = Direction::OUT },
            Direction::OUT => { *self = Direction::IN },
            Direction::INOUT => { *self = Direction::INOUT },
            Direction::BUFFER => { *self = Direction::IN },
        }
    }

    pub fn get_inverted(&self) -> (r: Direction)
        ensures
            r == self.spec_inverted(),
    {
        match self {
            Direction::IN => Direction::OUT,
            Direction::OUT => Direction::IN,
            Direction::INOUT => Direction::INOUT,
            Direction::BUFFER => Direction::IN,
        }
    }

    /// Renders the direction keyword.
    pub fn to_string(&self) -> (r: String)
        ensures
            r@ == self.spec_keyword(),
    {
        match self {
            Direction::IN => String::from_str("in"),
            Direction::OUT => String::from_str("out"),
            Direction::INOUT => String::from_str("inout"),
            Direction::BUFFER => String::from_str("buffer"),
        }
    }
}

/// Mirroring directions twice restores IN and OUT; BUFFER mirrors to IN,
/// while IN never mirrors to BUFFER, so the mirroring is an involution on
/// {IN, OUT} but no bijection over all four directions.
pub proof fn lemma_invert_involution()
    ensures
        Direction::IN.spec_inverted().spec_inverted() == Direction::IN,
        Direction::OUT.spec_inverted().spec_inverted() == Direction::OUT,
        Direction::BUFFER.spec_inverted() == Direction::IN,
        forall|d: Direction| #[trigger] d.spec_inverted() == Direction::BUFFER ==> false,
{
}

} // verus!
