use vstd::prelude::*;

verus! {

/// Every way in which a call into the contract can fail; each carries a readable detail.
#[derive(Debug, PartialEq)]
pub enum ContractError {
    Std { message: String },
    Unauthorized {},
    CustomErrorMesg { message: String },
    ErrorPayingTreasuries { text: String },
    FailedToFindNft { text: String },
    NftIndexOutOfBound { text: String },
    NftStatusIsNotReadyForMinting { text: String },
    InvalidIndexOfNft { text: String },
    InvalidCollectionStatus { text: String },
    CollectionNotFound { text: String },
    CollectionAlreadyExists { text: String },
    ItemAlreadyExists { text: String },
    MintByNameIsNotAllowed { text: String },
    PriceTypeNotFound { text: String },
    InsufficientFund { text: String },
    FailedToMakePayment { text: String },
    ContractInfoNotFound { message: String },
    FailedToTransferNft { text: String },
    FailedToReceiveNft { text: String },
    FailedToBurnNft { text: String },
    FailedToSendNft { text: String },
    ContractAlreadyInstantiated { text: String },
    OverOrUnderAllocationError { message: String },
    UnauthorizedSendingContract {},
    SendingContractIsNotDefined {},
    InvalidAllocationsForTreasuries { message: String },
    InvalidAllocationsForRoyalties { message: String },
}

/// The short name of an error kind.
pub open spec fn kind_name(e: ContractError) -> Seq<char> {
    match e {
            ContractError::Std { .. } => "Std"@,
            ContractError::Unauthorized { .. } => "Unauthorized"@,
            ContractError::CustomErrorMesg { .. } => "CustomErrorMesg"@,
            ContractError::ErrorPayingTreasuries { .. } => "ErrorPayingTreasuries"@,
            ContractError::FailedToFindNft { .. } => "FailedToFindNft"@,
            ContractError::NftIndexOutOfBound { .. } => "NftIndexOutOfBound"@,
            ContractError::NftStatusIsNotReadyForMinting { .. } => "NftStatusIsNotReadyForMinting"@,
            ContractError::InvalidIndexOfNft { .. } => "InvalidIndexOfNft"@,
            ContractError::InvalidCollectionStatus { .. } => "InvalidCollectionStatus"@,
            ContractError::CollectionNotFound { .. } => "CollectionNotFound"@,
            ContractError::CollectionAlreadyExists { .. } => "CollectionAlreadyExists"@,
            ContractError::ItemAlreadyExists { .. } => "ItemAlreadyExists"@,
            ContractError::MintByNameIsNotAllowed { .. } => "MintByNameIsNotAllowed"@,
            ContractError::PriceTypeNotFound { .. } => "PriceTypeNotFound"@,
            ContractError::InsufficientFund { .. } => "InsufficientFund"@,
            ContractError::FailedToMakePayment { .. } => "FailedToMakePayment"@,
            ContractError::ContractInfoNotFound { .. } => "ContractInfoNotFound"@,
            ContractError::FailedToTransferNft { .. } => "FailedToTransferNft"@,
            ContractError::FailedToReceiveNft { .. } => "FailedToReceiveNft"@,
            ContractError::FailedToBurnNft { .. } => "FailedToBurnNft"@,
            ContractError::FailedToSendNft { .. } => "FailedToSendNft"@,
            ContractError::ContractAlreadyInstantiated { .. } => "ContractAlreadyInstantiated"@,
            ContractError::OverOrUnderAllocationError { .. } => "OverOrUnderAllocationError"@,
            ContractError::UnauthorizedSendingContract { .. } => "UnauthorizedSendingContract"@,
            ContractError::SendingContractIsNotDefined { .. } => "SendingContractIsNotDefined"@,
            ContractError::InvalidAllocationsForTreasuries { .. } => "InvalidAllocationsForTreasuries"@,
            ContractError::InvalidAllocationsForRoyalties { .. } => "InvalidAllocationsForRoyalties"@,
    }
}

/// The readable detail of an error; empty for the kinds without one.
pub open spec fn detail_text(e: ContractError) -> Seq<char> {
    match e {
            ContractError::Std { message } => message@,
            ContractError::CustomErrorMesg { message } => message@,
            ContractError::ErrorPayingTreasuries { text } => text@,
            ContractError::FailedToFindNft { text } => text@,
            ContractError::NftIndexOutOfBound { text } => text@,
            ContractError::NftStatusIsNotReadyForMinting { text } => text@,
            ContractError::InvalidIndexOfNft { text } => text@,
            ContractError::InvalidCollectionStatus { text } => text@,
            ContractError::CollectionNotFound { text } => text@,
            ContractError::CollectionAlreadyExists { text } => text@,
            ContractError::ItemAlreadyExists { text } => text@,
            ContractError::MintByNameIsNotAllowed { text } => text@,
            ContractError::PriceTypeNotFound { text } => text@,
            ContractError::InsufficientFund { text } => text@,
            ContractError::FailedToMakePayment { text } => text@,
            ContractError::ContractInfoNotFound { message } => message@,
            ContractError::FailedToTransferNft { text } => text@,
            ContractError::FailedToReceiveNft { text } => text@,
            ContractError::FailedToBurnNft { text } => text@,
            ContractError::FailedToSendNft { text } => text@,
            ContractError::ContractAlreadyInstantiated { text } => text@,
            ContractError::OverOrUnderAllocationError { message } => message@,
            ContractError::InvalidAllocationsForTreasuries { message } => message@,
            ContractError::InvalidAllocationsForRoyalties { message } => message@,
            _ => Seq::empty(),
    }
}

impl ContractError {
    /// The readable detail that the error carries (empty for the kinds without one).
    pub fn detail(&self) -> (r: String)
        ensures
            r@ == detail_text(*self),
    {
        match self {
            ContractError::Std { message } => message.clone(),
            ContractError::CustomErrorMesg { message } => message.clone(),
            ContractError::ErrorPayingTreasuries { text } => text.clone(),
            ContractError::FailedToFindNft { text } => text.clone(),
            ContractError::NftIndexOutOfBound { text } => text.clone(),
            ContractError::NftStatusIsNotReadyForMinting { text } => text.clone(),
            ContractError::InvalidIndexOfNft { text } => text.clone(),
            ContractError::InvalidCollectionStatus { text } => text.clone(),
            ContractError::CollectionNotFound { text } => text.clone(),
            ContractError::CollectionAlreadyExists { text } => text.clone(),
            ContractError::ItemAlreadyExists { text } => text.clone(),
            ContractError::MintByNameIsNotAllowed { text } => text.clone(),
            ContractError::PriceTypeNotFound { text } => text.clone(),
            ContractError::InsufficientFund { text } => text.clone(),
            ContractError::FailedToMakePayment { text } => text.clone(),
            ContractError::ContractInfoNotFound { message } => message.clone(),
            ContractError::FailedToTransferNft { text } => text.clone(),
            ContractError::FailedToReceiveNft { text } => text.clone(),
            ContractError::FailedToBurnNft { text } => text.clone(),
            ContractError::FailedToSendNft { text } => text.clone(),
            ContractError::ContractAlreadyInstantiated { text } => text.clone(),
            ContractError::OverOrUnderAllocationError { message } => message.clone(),
            ContractError::InvalidAllocationsForTreasuries { message } => message.clone(),
            ContractError::InvalidAllocationsForRoyalties { message } => message.clone(),
            _ => String::new(),
        }
    }

    /// The short name of the error kind.
    pub fn kind(&self) -> (r: &'static str)
        ensures
            r@ == kind_name(*self),
    {
        match self {
            ContractError::Std { .. } => "Std",
            ContractError::Unauthorized {} => "Unauthorized",
            ContractError::CustomErrorMesg { .. } => "CustomErrorMesg",
            ContractError::ErrorPayingTreasuries { .. } => "ErrorPayingTreasuries",
            ContractError::FailedToFindNft { .. } => "FailedToFindNft",
            ContractError::NftIndexOutOfBound { .. } => "NftIndexOutOfBound",
            ContractError::NftStatusIsNotReadyForMinting { .. } => "NftStatusIsNotReadyForMinting",
            ContractError::InvalidIndexOfNft { .. } => "InvalidIndexOfNft",
            ContractError::InvalidCollectionStatus { .. } => "InvalidCollectionStatus",
            ContractError::CollectionNotFound { .. } => "CollectionNotFound",
            ContractError::CollectionAlreadyExists { .. } => "CollectionAlreadyExists",
            ContractError::ItemAlreadyExists { .. } => "ItemAlreadyExists",
            ContractError::MintByNameIsNotAllowed { .. } => "MintByNameIsNotAllowed",
            ContractError::PriceTypeNotFound { .. } => "PriceTypeNotFound",
            ContractError::InsufficientFund { .. } => "InsufficientFund",
            ContractError::FailedToMakePayment { .. } => "FailedToMakePayment",
            ContractError::ContractInfoNotFound { .. } => "ContractInfoNotFound",
            ContractError::FailedToTransferNft { .. } => "FailedToTransferNft",
            ContractError::FailedToReceiveNft { .. } => "FailedToReceiveNft",
            ContractError::FailedToBurnNft { .. } => "FailedToBurnNft",
            ContractError::FailedToSendNft { .. } => "FailedToSendNft",
            ContractError::ContractAlreadyInstantiated { .. } => "ContractAlreadyInstantiated",
            ContractError::OverOrUnderAllocationError { .. } => "OverOrUnderAllocationError",
            ContractError::UnauthorizedSendingContract {} => "UnauthorizedSendingContract",
            ContractError::SendingContractIsNotDefined {} => "SendingContractIsNotDefined",
            ContractError::InvalidAllocationsForTreasuries { .. } => "InvalidAllocationsForTreasuries",
            ContractError::InvalidAllocationsForRoyalties { .. } => "InvalidAllocationsForRoyalties",
        }
    }
}

} // verus!
