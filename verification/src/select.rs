//! Selection of the receivers a derived unified address should contain,
//! with its version-tagged one-byte-per-field encoding.

use vstd::prelude::*;

use crate::errors::KeyError;

verus! {

/// The version tag carried by every encoded `ReceiverSelection` record.
pub const RECEIVER_SELECTION_VERSION: u8 = 1;

/// Which of the three pools should contribute a receiver to an address.
#[derive(Debug, Clone, Copy, PartialEq, Eq, Structural)]
pub struct ReceiverSelection {
    /// Include a receiver for the index-addressed shielded pool.
    pub orchard: bool,
    /// Include a receiver for the diversifier-indexed shielded pool.
    pub sapling: bool,
    /// Include a transparent receiver.
    pub transparent: bool,
}

impl ReceiverSelection {
    /// The flag byte: bit 0 orchard, bit 1 sapling, bit 2 transparent.
    pub open spec fn spec_flags(self) -> u8 {
        ((if self.orchard { 1int } else { 0int }) + (if self.sapling { 2int } else { 0int })
            + (if self.transparent { 4int } else { 0int })) as u8
    }

    /// The selection encoded by a flag byte; bits past the third are ignored.
    pub open spec fn spec_from_flags(f: u8) -> ReceiverSelection {
        ReceiverSelection {
            orchard: f % 2 == 1,
            sapling: (f / 2) % 2 == 1,
            transparent: (f / 4) % 2 == 1,
        }
    }

    /// The two-byte encoding: version tag, then flags.
    pub open spec fn spec_bytes(self) -> Seq<u8> {
        seq![RECEIVER_SELECTION_VERSION, self.spec_flags()]
    }

    /// Parses one encoded record from the front of `s`.
    pub open spec fn spec_parse(s: Seq<u8>) -> Option<(ReceiverSelection, int)> {
        if s.len() >= 2 && s[0] == RECEIVER_SELECTION_VERSION {
            Some((Self::spec_from_flags(s[1]), 2))
        } else {
            None
        }
    }

    /// Appends this selection's two-byte encoding.
    pub fn write(&self, out: &mut Vec<u8>)
        ensures
            final(out)@ == old(out)@ + self.spec_bytes(),
    {
        out.push(RECEIVER_SELECTION_VERSION);
        let mut flags: u8 = 0;
        if self.orchard {
            flags = flags + 1;
        }
        if self.sapling {
            flags = flags + 2;
        }
        if self.transparent {
            flags = flags + 4;
        }
        out.push(flags);
        assert(out@ =~= old(out)@ + self.spec_bytes());
    }

    /// Reads one encoded selection at `pos`, returning it with the position
    /// just past it.
    pub fn read(bytes: &Vec<u8>, pos: usize) -> (r: Result<(ReceiverSelection, usize), KeyError>)
        requires
            pos <= bytes@.len(),
        ensures
            match r {
                Ok((rs, p)) => {
                    &&& Self::spec_parse(bytes@.skip(pos as int)) == Some((rs, p - pos))
                    &&& pos < p <= bytes@.len()
                },
                Err(e) => {
                    &&& Self::spec_parse(bytes@.skip(pos as int)) is None
                    &&& e == KeyError::CorruptEncoding
                },
            },
    {
        if bytes.len() - pos < 2 {
            return Err(KeyError::CorruptEncoding);
        }
        let version = bytes[pos];
        if version != RECEIVER_SELECTION_VERSION {
            return Err(KeyError::CorruptEncoding);
        }
        let flags = bytes[pos + 1];
        let rs = ReceiverSelection {
            orchard: flags % 2 == 1,
            sapling: (flags / 2) % 2 == 1,
            transparent: (flags / 4) % 2 == 1,
        };
        Ok((rs, pos + 2))
    }
}

/// Decoding a selection's encoding gives the selection back, and every flag
/// byte below 8 is reproduced exactly by re-encoding: the codec is a
/// bijection between the 8 selections and the flag bytes `0..8`.
pub proof fn lemma_receiver_selection_round_trip()
    ensures
        forall|rs: ReceiverSelection|
            ReceiverSelection::spec_from_flags(rs.spec_flags()) == rs,
        forall|f: u8| f < 8 ==> ReceiverSelection::spec_from_flags(f).spec_flags() == f,
        forall|rs: ReceiverSelection, rest: Seq<u8>|
            ReceiverSelection::spec_parse(rs.spec_bytes() + rest) == Some((rs, 2int)),
{
    assert forall|rs: ReceiverSelection|
        ReceiverSelection::spec_from_flags(rs.spec_flags()) == rs by {
        let f = rs.spec_flags();
        assert(f < 8);
    }
    assert forall|f: u8| f < 8 implies ReceiverSelection::spec_from_flags(f).spec_flags() == f by {
        let rs = ReceiverSelection::spec_from_flags(f);
    }
    assert forall|rs: ReceiverSelection, rest: Seq<u8>|
        ReceiverSelection::spec_parse(rs.spec_bytes() + rest) == Some((rs, 2int)) by {
        let s = rs.spec_bytes() + rest;
        assert(s.len() >= 2 && s[0] == RECEIVER_SELECTION_VERSION && s[1] == rs.spec_flags());
        assert(ReceiverSelection::spec_from_flags(rs.spec_flags()) == rs);
    }
}

} // verus!
