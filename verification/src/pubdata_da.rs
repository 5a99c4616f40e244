//! Data-availability layers and their fixed numeric codes.

use vstd::prelude::*;
use vstd::std_specs::convert::FromSpecImpl;
use vstd::std_specs::convert::TryFromSpecImpl;

verus! {

/// How the sender publishes pubdata, as chosen in the node's configuration.
#[derive(Debug, Clone, Copy, PartialEq, Eq, Structural)]
pub enum PubdataSendingMode {
    Calldata,
    Blobs,
    NoDA,
    GCS,
    Celestia,
    EigenDA,
    Avail,
}

/// The data-availability layer that a batch's pubdata went to.
///
/// Every variant has a fixed one-byte code, counted from zero in the order of
/// declaration; the codes are part of stored data and never change.
#[derive(Debug, Clone, Copy, PartialEq, Eq, Structural)]
pub enum PubdataDA {
    Calldata,
    Blobs,
    NoDA,
    GCS,
    Celestia,
    EigenDA,
    Avail,
}

/// A byte that is the code of no data-availability layer.
#[derive(Debug, Clone, Copy, PartialEq, Eq, Structural)]
pub struct TryFromPrimitiveError {
    /// The byte that was rejected.
    pub number: u8,
}

/// Number of data-availability layers; the valid codes are `0..PUBDATA_DA_COUNT`.
pub const PUBDATA_DA_COUNT: u8 = 7;

impl PubdataDA {
    /// The numeric code of each layer.
    pub open spec fn code(self) -> u8 {
        match self {
            PubdataDA::Calldata => 0,
            PubdataDA::Blobs => 1,
            PubdataDA::NoDA => 2,
            PubdataDA::GCS => 3,
            PubdataDA::Celestia => 4,
            PubdataDA::EigenDA => 5,
            PubdataDA::Avail => 6,
        }
    }

    /// The layer that a byte stands for: the one whose code it is, or the
    /// byte itself as the error where no layer has that code.
    pub open spec fn decode(number: u8) -> Result<PubdataDA, TryFromPrimitiveError> {
        if number == 0 {
            Ok(PubdataDA::Calldata)
        } else if number == 1 {
            Ok(PubdataDA::Blobs)
        } else if number == 2 {
            Ok(PubdataDA::NoDA)
        } else if number == 3 {
            Ok(PubdataDA::GCS)
        } else if number == 4 {
            Ok(PubdataDA::Celestia)
        } else if number == 5 {
            Ok(PubdataDA::EigenDA)
        } else if number == 6 {
            Ok(PubdataDA::Avail)
        } else {
            Err(TryFromPrimitiveError { number })
        }
    }

    /// The layer that corresponds to each sending mode: the one of the same name.
    pub open spec fn of_mode(mode: PubdataSendingMode) -> PubdataDA {
        match mode {
            PubdataSendingMode::Calldata => PubdataDA::Calldata,
            PubdataSendingMode::Blobs => PubdataDA::Blobs,
            PubdataSendingMode::NoDA => PubdataDA::NoDA,
            PubdataSendingMode::GCS => PubdataDA::GCS,
            PubdataSendingMode::Celestia => PubdataDA::Celestia,
            PubdataSendingMode::EigenDA => PubdataDA::EigenDA,
            PubdataSendingMode::Avail => PubdataDA::Avail,
        }
    }

    /// The code of this layer as a byte.
    pub fn to_u8(self) -> (number: u8)
        ensures
            number == self.code(),
            number < PUBDATA_DA_COUNT,
    {
        match self {
            PubdataDA::Calldata => 0,
            PubdataDA::Blobs => 1,
            PubdataDA::NoDA => 2,
            PubdataDA::GCS => 3,
            PubdataDA::Celestia => 4,
            PubdataDA::EigenDA => 5,
            PubdataDA::Avail => 6,
        }
    }

    /// Reads a layer from its code. Succeeds exactly on the codes below
    /// `PUBDATA_DA_COUNT`; any other byte comes back inside the error.
    pub fn try_from_primitive(number: u8) -> (r: Result<PubdataDA, TryFromPrimitiveError>)
        ensures
            r == PubdataDA::decode(number),
            r is Ok <==> number < PUBDATA_DA_COUNT,
            r matches Ok(layer) ==> layer.code() == number,
            r matches Err(e) ==> e.number == number,
    {
        match number {
            0 => Ok(PubdataDA::Calldata),
            1 => Ok(PubdataDA::Blobs),
            2 => Ok(PubdataDA::NoDA),
            3 => Ok(PubdataDA::GCS),
            4 => Ok(PubdataDA::Celestia),
            5 => Ok(PubdataDA::EigenDA),
            6 => Ok(PubdataDA::Avail),
            _ => Err(TryFromPrimitiveError { number }),
        }
    }

    /// Encoding a layer and decoding the byte gives the layer back.
    pub proof fn lemma_decode_code(layer: PubdataDA)
        ensures
            PubdataDA::decode(layer.code()) == Ok::<PubdataDA, TryFromPrimitiveError>(layer),
    {
    }

    /// A byte that decodes to a layer is that layer's code.
    pub proof fn lemma_code_decode(number: u8)
        ensures
            PubdataDA::decode(number) matches Ok(layer) ==> layer.code() == number,
            PubdataDA::decode(number) is Ok <==> number < PUBDATA_DA_COUNT,
    {
    }

    /// Distinct layers have distinct codes.
    pub proof fn lemma_code_injective(a: PubdataDA, b: PubdataDA)
        ensures
            a.code() == b.code() <==> a == b,
    {
    }

    /// Distinct sending modes go to distinct layers, and every layer is the
    /// image of a mode.
    pub proof fn lemma_of_mode_bijective(a: PubdataSendingMode, b: PubdataSendingMode, layer: PubdataDA)
        ensures
            PubdataDA::of_mode(a) == PubdataDA::of_mode(b) <==> a == b,
            exists|m: PubdataSendingMode| PubdataDA::of_mode(m) == layer,
    {
        match layer {
            PubdataDA::Calldata => {
                assert(PubdataDA::of_mode(PubdataSendingMode::Calldata) == layer);
            },
            PubdataDA::Blobs => {
                assert(PubdataDA::of_mode(PubdataSendingMode::Blobs) == layer);
            },
            PubdataDA::NoDA => {
                assert(PubdataDA::of_mode(PubdataSendingMode::NoDA) == layer);
            },
            PubdataDA::GCS => {
                assert(PubdataDA::of_mode(PubdataSendingMode::GCS) == layer);
            },
            PubdataDA::Celestia => {
                assert(PubdataDA::of_mode(PubdataSendingMode::Celestia) == layer);
            },
            PubdataDA::EigenDA => {
                assert(PubdataDA::of_mode(PubdataSendingMode::EigenDA) == layer);
            },
            PubdataDA::Avail => {
                assert(PubdataDA::of_mode(PubdataSendingMode::Avail) == layer);
            },
        }
    }
}

impl From<PubdataSendingMode> for PubdataDA {
    fn from(value: PubdataSendingMode) -> (r: PubdataDA) {
        match value {
            PubdataSendingMode::Calldata => PubdataDA::Calldata,
            PubdataSendingMode::Blobs => PubdataDA::Blobs,
            PubdataSendingMode::NoDA => PubdataDA::NoDA,
            PubdataSendingMode::GCS => PubdataDA::GCS,
            PubdataSendingMode::Celestia => PubdataDA::Celestia,
            PubdataSendingMode::EigenDA => PubdataDA::EigenDA,
            PubdataSendingMode::Avail => PubdataDA::Avail,
        }
    }
}

impl FromSpecImpl<PubdataSendingMode> for PubdataDA {
    open spec fn obeys_from_spec() -> bool {
        true
    }

    open spec fn from_spec(value: PubdataSendingMode) -> PubdataDA {
        PubdataDA::of_mode(value)
    }
}

impl TryFrom<u8> for PubdataDA {
    type Error = TryFromPrimitiveError;

    fn try_from(number: u8) -> (r: Result<PubdataDA, TryFromPrimitiveError>) {
        PubdataDA::try_from_primitive(number)
    }
}

impl TryFromSpecImpl<u8> for PubdataDA {
    open spec fn obeys_try_from_spec() -> bool {
        true
    }

    open spec fn try_from_spec(number: u8) -> Result<PubdataDA, TryFromPrimitiveError> {
        PubdataDA::decode(number)
    }
}

} // verus!
