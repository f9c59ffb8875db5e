use vstd::prelude::*;
use vstd::string::StringSliceAdditionalSpecFns;

verus! {

/// The reasons for which an endpoint refuses a call or a bridge operation fails.
#[derive(Clone, Copy, Debug, PartialEq, Eq, Structural)]
pub enum BridgeError {
    ActionIsNotAllowed,
    AdditionalStakeNotRequired,
    AdditionalStakeZeroValue,
    BannedEndpointName,
    BridgeAlreadyDeployed,
    BurnEsdtFailed,
    CallerHasIncorrectBlsKey,
    ChainConfigNotDeployed,
    ChainIdNotLowercaseAlphanumeric,
    DepositOverMaxAmount,
    EmptyAdditionalStake,
    ErrEmptyPayments,
    ErrorAtEncoding,
    ErrorAtGeneratingOperationHash,
    EsdtSafeStillPaused,
    GasLimitTooHigh,
    InvalidAdditionalStake,
    InvalidBlsKeyForCaller,
    InvalidBlsKeyProvided,
    InvalidChainId,
    InvalidEgldStake,
    InvalidFee,
    InvalidFeeType,
    InvalidMinMaxValidatorNumbers,
    InvalidNumberOfBlsKeys,
    InvalidPercentageSum,
    InvalidScAddress,
    InvalidSignature,
    InvalidTokenId,
    InvalidTokenProvidedForFee,
    InvalidValidatorData,
    MaxGasLimitPerTxExceeded,
    MintEsdtFailed,
    MissingValidatorInfo,
    NotEnoughValidators,
    NothingToTransfer,
    OnlyEsdtSafeCaller,
    OnlyOwner,
    OnlyAdmin,
    PaymentDoesNotCoverFee,
    RegistrationDisabled,
    SubtractionUnderflow,
    RegistrationsDisabledGenesisPhase,
    SetupPhaseAlreadyCompleted,
    SetupPhaseNotCompleted,
    TokenBlacklisted,
    TokenIdNoPrefix,
    TokenNotAcceptedAsFee,
    TooManyTokens,
    ValidatorAlreadyRegistered,
    ValidatorIdNotRegistered,
    ValidatorNotRegistered,
    ValidatorRangeExceeded,
}

impl BridgeError {
    /// The message that the contracts report for this error.
    pub open spec fn spec_message(self) -> &'static str {
        match self {
            BridgeError::ActionIsNotAllowed => "action is not allowed",
            BridgeError::AdditionalStakeNotRequired => "Additional stake was provided but is not required",
            BridgeError::AdditionalStakeZeroValue => "Additional stake cannot be a zero value",
            BridgeError::BannedEndpointName => "Banned endpoint name",
            BridgeError::BridgeAlreadyDeployed => "Bridge already deployed",
            BridgeError::BurnEsdtFailed => "Failed to burn ESDT:",
            BridgeError::CallerHasIncorrectBlsKey => "Caller has incorrect BLS key",
            BridgeError::ChainConfigNotDeployed => "The Chain Config contract was not deployed",
            BridgeError::ChainIdNotLowercaseAlphanumeric => "Chain ID is not lowercase alphanumeric",
            BridgeError::DepositOverMaxAmount => "Deposit over max amount",
            BridgeError::EmptyAdditionalStake => "Additional stake list cannot be empty",
            BridgeError::ErrEmptyPayments => "No payments",
            BridgeError::ErrorAtEncoding => "Error at encoding",
            BridgeError::ErrorAtGeneratingOperationHash => "Error at generating operation hash",
            BridgeError::EsdtSafeStillPaused => "Cannot create transaction while paused",
            BridgeError::GasLimitTooHigh => "Gas limit too high",
            BridgeError::InvalidAdditionalStake => "Invalid additional stake sent",
            BridgeError::InvalidBlsKeyForCaller => "Invalid BLS key for caller",
            BridgeError::InvalidBlsKeyProvided => "Invalid BLS key has been provided",
            BridgeError::InvalidChainId => "Invalid chain ID",
            BridgeError::InvalidEgldStake => "Invalid EGLD stake sent",
            BridgeError::InvalidFee => "Invalid fee",
            BridgeError::InvalidFeeType => "Invalid fee type",
            BridgeError::InvalidMinMaxValidatorNumbers => "Invalid validator range",
            BridgeError::InvalidNumberOfBlsKeys => "The number of validator BLS Keys is not correct",
            BridgeError::InvalidPercentageSum => "Invalid percentage sum",
            BridgeError::InvalidScAddress => "Invalid SC address",
            BridgeError::InvalidSignature => "Invalid signature",
            BridgeError::InvalidTokenId => "Invalid token ID",
            BridgeError::InvalidTokenProvidedForFee => "Invalid token provided for fee",
            BridgeError::InvalidValidatorData => "Invalid validator data has been provided",
            BridgeError::MaxGasLimitPerTxExceeded => "The gas limit exceeds the maximum gas per transaction limit",
            BridgeError::MintEsdtFailed => "Failed to mint ESDT:",
            BridgeError::MissingValidatorInfo => "storage decode error: input too short",
            BridgeError::NotEnoughValidators => "Not enough validators registered",
            BridgeError::NothingToTransfer => "Nothing to transfer",
            BridgeError::OnlyEsdtSafeCaller => "Only ESDT Safe can call this endpoint",
            BridgeError::OnlyOwner => "Endpoint can only be called by owner",
            BridgeError::OnlyAdmin => "Endpoint can only be called by admins",
            BridgeError::PaymentDoesNotCoverFee => "Payment does not cover fee",
            BridgeError::RegistrationDisabled => "Registration is disabled",
            BridgeError::SubtractionUnderflow => "cannot subtract because result would be negative",
            BridgeError::RegistrationsDisabledGenesisPhase => "Registrations are disabled after genesis phase",
            BridgeError::SetupPhaseAlreadyCompleted => "The setup is completed",
            BridgeError::SetupPhaseNotCompleted => "The setup is not completed",
            BridgeError::TokenBlacklisted => "Token is blacklisted",
            BridgeError::TokenIdNoPrefix => "Token Id does not have prefix",
            BridgeError::TokenNotAcceptedAsFee => "Token not accepted as fee",
            BridgeError::TooManyTokens => "Too many tokens",
            BridgeError::ValidatorAlreadyRegistered => "Validator already registered",
            BridgeError::ValidatorIdNotRegistered => "Provided validator id is not registered",
            BridgeError::ValidatorNotRegistered => "Validator not registered",
            BridgeError::ValidatorRangeExceeded => "Validator range exceeded",
        }
    }

    /// The message that the contracts report for this error.
    pub fn message(&self) -> (r: &'static str)
        ensures
            r == self.spec_message(),
    {
        match self {
            BridgeError::ActionIsNotAllowed => "action is not allowed",
            BridgeError::AdditionalStakeNotRequired => "Additional stake was provided but is not required",
            BridgeError::AdditionalStakeZeroValue => "Additional stake cannot be a zero value",
            BridgeError::BannedEndpointName => "Banned endpoint name",
            BridgeError::BridgeAlreadyDeployed => "Bridge already deployed",
            BridgeError::BurnEsdtFailed => "Failed to burn ESDT:",
            BridgeError::CallerHasIncorrectBlsKey => "Caller has incorrect BLS key",
            BridgeError::ChainConfigNotDeployed => "The Chain Config contract was not deployed",
            BridgeError::ChainIdNotLowercaseAlphanumeric => "Chain ID is not lowercase alphanumeric",
            BridgeError::DepositOverMaxAmount => "Deposit over max amount",
            BridgeError::EmptyAdditionalStake => "Additional stake list cannot be empty",
            BridgeError::ErrEmptyPayments => "No payments",
            BridgeError::ErrorAtEncoding => "Error at encoding",
            BridgeError::ErrorAtGeneratingOperationHash => "Error at generating operation hash",
            BridgeError::EsdtSafeStillPaused => "Cannot create transaction while paused",
            BridgeError::GasLimitTooHigh => "Gas limit too high",
            BridgeError::InvalidAdditionalStake => "Invalid additional stake sent",
            BridgeError::InvalidBlsKeyForCaller => "Invalid BLS key for caller",
            BridgeError::InvalidBlsKeyProvided => "Invalid BLS key has been provided",
            BridgeError::InvalidChainId => "Invalid chain ID",
            BridgeError::InvalidEgldStake => "Invalid EGLD stake sent",
            BridgeError::InvalidFee => "Invalid fee",
            BridgeError::InvalidFeeType => "Invalid fee type",
            BridgeError::InvalidMinMaxValidatorNumbers => "Invalid validator range",
            BridgeError::InvalidNumberOfBlsKeys => "The number of validator BLS Keys is not correct",
            BridgeError::InvalidPercentageSum => "Invalid percentage sum",
            BridgeError::InvalidScAddress => "Invalid SC address",
            BridgeError::InvalidSignature => "Invalid signature",
            BridgeError::InvalidTokenId => "Invalid token ID",
            BridgeError::InvalidTokenProvidedForFee => "Invalid token provided for fee",
            BridgeError::InvalidValidatorData => "Invalid validator data has been provided",
            BridgeError::MaxGasLimitPerTxExceeded => "The gas limit exceeds the maximum gas per transaction limit",
            BridgeError::MintEsdtFailed => "Failed to mint ESDT:",
            BridgeError::MissingValidatorInfo => "storage decode error: input too short",
            BridgeError::NotEnoughValidators => "Not enough validators registered",
            BridgeError::NothingToTransfer => "Nothing to transfer",
            BridgeError::OnlyEsdtSafeCaller => "Only ESDT Safe can call this endpoint",
            BridgeError::OnlyOwner => "Endpoint can only be called by owner",
            BridgeError::OnlyAdmin => "Endpoint can only be called by admins",
            BridgeError::PaymentDoesNotCoverFee => "Payment does not cover fee",
            BridgeError::RegistrationDisabled => "Registration is disabled",
            BridgeError::SubtractionUnderflow => "cannot subtract because result would be negative",
            BridgeError::RegistrationsDisabledGenesisPhase => "Registrations are disabled after genesis phase",
            BridgeError::SetupPhaseAlreadyCompleted => "The setup is completed",
            BridgeError::SetupPhaseNotCompleted => "The setup is not completed",
            BridgeError::TokenBlacklisted => "Token is blacklisted",
            BridgeError::TokenIdNoPrefix => "Token Id does not have prefix",
            BridgeError::TokenNotAcceptedAsFee => "Token not accepted as fee",
            BridgeError::TooManyTokens => "Too many tokens",
            BridgeError::ValidatorAlreadyRegistered => "Validator already registered",
            BridgeError::ValidatorIdNotRegistered => "Provided validator id is not registered",
            BridgeError::ValidatorNotRegistered => "Validator not registered",
            BridgeError::ValidatorRangeExceeded => "Validator range exceeded",
        }
    }

    /// The bytes of the message.
    pub open spec fn message_view(self) -> Seq<u8> {
        self.spec_message().spec_bytes()
    }

    /// The bytes of [`Self::message`].
    pub fn message_bytes(&self) -> (r: Vec<u8>)
        ensures
            r@ == self.message_view(),
    {
        self.message().as_bytes_vec()
    }
}

} // verus!
