//! The public tracking operations over a loaded tracking document.
use crate::keys::{
    Address,
    H256,
    chain_key,
    contract_key,
    create_block_hash,
    create_smart_contract_hash,
};
use crate::store::{
    InsertionError,
    SmartContractTrackingData,
    SmartContractTrackingDataEntry,
    TrackingData,
    TrackingView,
    record_at,
    view_finite,
    with_record,
};
use vstd::prelude::*;

verus! {

/// Why a tracking operation failed.
#[derive(Debug)]
pub enum DeploymentTrackingError {
    /// There is no backing file; it has to be created first.
    DatabaseNotFound,
    /// The backing file could not be read or written.
    Io(String),
    /// The backing file does not hold a well-formed document.
    Format(String),
    /// A stored value does not have the shape of a record.
    Serialization(String),
    /// A path could not be written.
    Insertion(InsertionError),
    /// Any other failure, by its description.
    Other(String),
}

impl DeploymentTrackingError {
    /// A copy of this error.
    pub fn duplicate(&self) -> (r: Self)
        ensures
            r == *self,
    {
        match self {
            DeploymentTrackingError::DatabaseNotFound => DeploymentTrackingError::DatabaseNotFound,
            DeploymentTrackingError::Io(m) => DeploymentTrackingError::Io(m.clone()),
            DeploymentTrackingError::Format(m) => DeploymentTrackingError::Format(m.clone()),
            DeploymentTrackingError::Serialization(m) => DeploymentTrackingError::Serialization(
                m.clone(),
            ),
            DeploymentTrackingError::Insertion(e) => DeploymentTrackingError::Insertion(*e),
            DeploymentTrackingError::Other(m) => DeploymentTrackingError::Other(m.clone()),
        }
    }
}

/// The abstract state of the backing file: its document, or why there is none.
pub open spec fn document_view(document: &Result<TrackingData, DeploymentTrackingError>) -> Result<
    TrackingView,
    DeploymentTrackingError,
> {
    match document {
        Ok(d) => Ok(d@),
        Err(e) => Err(*e),
    }
}

/// The deployment tracker of one project. It holds what loading the
/// project's backing file gave: the document, or the error that loading
/// met (`DatabaseNotFound` where there is no file). Mutating operations
/// change the document in place; whoever owns the file writes it back.
pub struct DeploymentTracker {
    pub document: Result<TrackingData, DeploymentTrackingError>,
}

impl DeploymentTracker {
    /// Well-formed: a loaded document is well-formed.
    pub open spec fn wf(&self) -> bool {
        match self.document {
            Ok(d) => d.wf(),
            Err(_) => true,
        }
    }

    /// The tracker of a project whose backing file loaded as `document`.
    pub fn new(document: Result<TrackingData, DeploymentTrackingError>) -> (r: Self)
        requires
            document matches Ok(d) ==> d.wf(),
        ensures
            r.wf(),
            r.document == document,
    {
        DeploymentTracker { document }
    }

    /// Whether the backing file is there.
    pub fn database_exists(&self) -> (r: bool)
        ensures
            r == !(self.document matches Err(DeploymentTrackingError::DatabaseNotFound)),
    {
        match &self.document {
            Err(DeploymentTrackingError::DatabaseNotFound) => false,
            _ => true,
        }
    }

    /// Replaces the backing file's contents by an empty document, whatever
    /// was there before.
    pub fn create_database(&mut self)
        ensures
            final(self).wf(),
            document_view(&final(self).document) == Ok::<TrackingView, DeploymentTrackingError>(
                TrackingView::empty(),
            ),
    {
        self.document = Ok(TrackingData::new());
    }

    /// Records that the contract built from (`name`, `byte_code`, `args`) was
    /// deployed at `address` on the chain state `block_hash`, replacing an
    /// earlier record for the same chain state and artifact. Fails, changing
    /// nothing, with the loading error (`DatabaseNotFound` where there is no
    /// backing file).
    pub fn track(
        &mut self,
        block_hash: H256,
        name: String,
        byte_code: String,
        args: &Vec<String>,
        address: Address,
    ) -> (r: Result<(), DeploymentTrackingError>)
        requires
            old(self).wf(),
        ensures
            final(self).wf(),
            final(self).document matches Ok(d) ==> view_finite(d@),
            match old(self).document {
                Err(e) => r == Err::<(), DeploymentTrackingError>(e) && final(self).document
                    == old(self).document,
                Ok(d) => r is Ok && view_finite(d@) && document_view(&final(self).document) == Ok::<
                    TrackingView,
                    DeploymentTrackingError,
                >(
                    with_record(
                        d@,
                        chain_key(block_hash.bytes@),
                        contract_key(name@, byte_code@, args@),
                        (name@, address.bytes@),
                    ),
                ),
            },
    {
        let chain = create_block_hash(&block_hash);
        let contract = create_smart_contract_hash(name.as_str(), byte_code.as_str(), args);
        let entry = SmartContractTrackingDataEntry { name, address };
        let mut document: Result<TrackingData, DeploymentTrackingError> = Err(
            DeploymentTrackingError::DatabaseNotFound,
        );
        std::mem::swap(&mut document, &mut self.document);
        match document {
            Err(e) => {
                let r = e.duplicate();
                self.document = Err(e);
                Err(r)
            },
            Ok(mut d) => {
                proof {
                    d.lemma_finite();
                }
                let written = match d.read_entry(&chain, &contract) {
                    None => d.insert(chain, contract, entry),
                    Some(_) => d.set(chain, contract, entry),
                };
                proof {
                    d.lemma_finite();
                }
                self.document = Ok(d);
                match written {
                    Ok(()) => Ok(()),
                    Err(e) => Err(DeploymentTrackingError::Insertion(e)),
                }
            },
        }
    }

    /// The record of the contract built from (`name`, `byte_code`, `args`)
    /// on the chain state `block_hash`, if one was tracked. Fails with the
    /// loading error (`DatabaseNotFound` where there is no backing file).
    pub fn get_smart_contract_tracking_data(
        &self,
        block_hash: &H256,
        name: &str,
        byte_code: &str,
        args: &Vec<String>,
    ) -> (r: Result<Option<SmartContractTrackingDataEntry>, DeploymentTrackingError>)
        requires
            self.wf(),
        ensures
            match self.document {
                Err(e) => r == Err::<Option<SmartContractTrackingDataEntry>, DeploymentTrackingError>(
                    e,
                ),
                Ok(d) => match r {
                    Ok(Some(e)) => record_at(
                        d@,
                        chain_key(block_hash.bytes@),
                        contract_key(name@, byte_code@, args@),
                    ) == Some(e@),
                    Ok(None) => record_at(
                        d@,
                        chain_key(block_hash.bytes@),
                        contract_key(name@, byte_code@, args@),
                    ).is_none(),
                    Err(_) => false,
                },
            },
    {
        let chain = create_block_hash(block_hash);
        let contract = create_smart_contract_hash(name, byte_code, args);
        match &self.document {
            Err(e) => Err(e.duplicate()),
            Ok(d) => Ok(d.read_entry(&chain, &contract)),
        }
    }

    /// All records tracked on the chain state `block_hash`, if any. Where
    /// there is no backing file this is `None` as well; any other loading
    /// error is returned as it is.
    pub fn get_all_smart_contract_tracking_data(&self, block_hash: &H256) -> (r: Result<
        Option<SmartContractTrackingData>,
        DeploymentTrackingError,
    >)
        requires
            self.wf(),
        ensures
            match self.document {
                Err(DeploymentTrackingError::DatabaseNotFound) => r matches Ok(None),
                Err(e) => r == Err::<Option<SmartContractTrackingData>, DeploymentTrackingError>(e),
                Ok(d) => match r {
                    Ok(Some(b)) => b.wf() && b@.dom().finite() && d@.contains_key(
                        chain_key(block_hash.bytes@),
                    ) && b@
                        == d@[chain_key(block_hash.bytes@)],
                    Ok(None) => !d@.contains_key(chain_key(block_hash.bytes@)),
                    Err(_) => false,
                },
            },
    {
        let chain = create_block_hash(block_hash);
        match &self.document {
            Err(DeploymentTrackingError::DatabaseNotFound) => Ok(None),
            Err(e) => Err(e.duplicate()),
            Ok(d) => Ok(d.read_chain(&chain)),
        }
    }
}

/// Tracking a deployment and then looking it up with the same identifying
/// arguments gives back the tracked name and address.
pub proof fn lemma_track_then_get(
    db: TrackingView,
    block_hash: Seq<u8>,
    name: Seq<char>,
    byte_code: Seq<char>,
    args: Seq<String>,
    address: Seq<u8>,
)
    ensures
        record_at(
            with_record(
                db,
                chain_key(block_hash),
                contract_key(name, byte_code, args),
                (name, address),
            ),
            chain_key(block_hash),
            contract_key(name, byte_code, args),
        ) == Some((name, address)),
{
}

/// Tracking the same deployment twice leaves the second address: a lookup
/// never returns the first, and the document is as if only the second had
/// been tracked.
pub proof fn lemma_track_overwrites(
    db: TrackingView,
    block_hash: Seq<u8>,
    name: Seq<char>,
    byte_code: Seq<char>,
    args: Seq<String>,
    first: Seq<u8>,
    second: Seq<u8>,
)
    ensures
        ({
            let c = chain_key(block_hash);
            let k = contract_key(name, byte_code, args);
            let twice = with_record(with_record(db, c, k, (name, first)), c, k, (name, second));
            &&& record_at(twice, c, k) == Some((name, second))
            &&& twice == with_record(db, c, k, (name, second))
        }),
{
    let c = chain_key(block_hash);
    let k = contract_key(name, byte_code, args);
    let once = with_record(db, c, k, (name, first));
    let twice = with_record(once, c, k, (name, second));
    let direct = with_record(db, c, k, (name, second));
    assert(twice[c] =~= direct[c]);
    assert(twice =~= direct);
}

/// Tracking a deployment leaves the record at every other path as it was.
pub proof fn lemma_track_leaves_others(
    db: TrackingView,
    chain: Seq<char>,
    contract: Seq<char>,
    record: (Seq<char>, Seq<u8>),
    other_chain: Seq<char>,
    other_contract: Seq<char>,
)
    requires
        chain != other_chain || contract != other_contract,
    ensures
        record_at(with_record(db, chain, contract, record), other_chain, other_contract)
            == record_at(db, other_chain, other_contract),
{
}

} // verus!
