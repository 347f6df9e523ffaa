//! The reply to a request for the stages of operations.
use std::collections::HashMap;
use vstd::prelude::*;

verus! {

/// The stages of each operation that was asked for, by its id.
#[derive(Debug)]
pub struct StageProfilingApiResponse {
    pub response: HashMap<String, OperationData>,
}

/// The type of an operation and the stages it went through.
#[allow(non_snake_case)]
#[derive(Debug)]
pub struct OperationData {
    pub operationType: OperationType,
    pub stages: HashMap<StageType, Stage>,
}

/// The type of an operation.
#[derive(Debug, Clone, Copy, PartialEq, Eq)]
pub enum OperationType {
    PENDING,
    TacTonTac,
    TacTon,
    TonTac,
    Rollback,
    Unknown,
    /// Any other name.
    ErrorType,
}

/// A stage of an operation.
#[derive(Debug, Clone, Copy, PartialEq, Eq, Hash)]
pub enum StageType {
    CollectedInTAC,
    IncludedInTACConsensus,
    ExecutedInTAC,
    CollectedInTON,
    IncludedInTONConsensus,
    ExecutedInTON,
}

/// Whether an operation went through a stage, and with what outcome.
#[derive(Debug)]
pub struct Stage {
    pub exists: bool,
    pub stage_data: Option<StageData>,
}

/// The outcome of a stage.
#[derive(Debug)]
pub struct StageData {
    pub success: bool,
    pub timestamp: u64,
    pub transactions: Vec<Transaction>,
    pub note: Option<String>,
}

/// The chain on which a transaction took place.
#[derive(Debug, Clone, Copy, PartialEq, Eq)]
pub enum BlockchainType {
    TAC,
    TON,
    /// Any other name.
    UNKNOWN,
}

/// A transaction of a stage.
#[derive(Debug)]
pub struct Transaction {
    pub hash: String,
    pub blockchain_type: BlockchainType,
}

} // verus!
