use vstd::prelude::*;

verus! {

/// Errors of the kernel; each has the code `6000 + its position`.
#[derive(Clone, Copy, Debug, PartialEq, Eq, Structural)]
pub enum ValenceError {
    /// Invalid input parameter
    InvalidInput,
    /// Unauthorized access
    Unauthorized,
    /// System is paused
    SystemPaused,
    /// Arithmetic overflow
    ArithmeticOverflow,
    /// Compute limit exceeded
    ComputeLimitExceeded,
    /// Conflicting constraints
    ConflictingConstraints,
    /// Resource allocation failed
    ResourceAllocationFailed,
    /// Execution failed
    ExecutionFailed,
    /// Invalid state transition
    InvalidStateTransition,
    /// Queue is full
    QueueFull,
    /// Resource not available
    ResourceNotAvailable,
    /// Priority conflict
    PriorityConflict,
    /// Invalid ordering constraint
    InvalidOrderingConstraint,
    /// Diff calculation failed
    DiffCalculationFailed,
    /// Atomic operation failed
    AtomicOperationFailed,
    /// Batch optimization failed
    BatchOptimizationFailed,
    /// Invalid diff operation
    InvalidDiffOperation,
    /// Diff size exceeded
    DiffSizeExceeded,
    /// Snapshot not found
    SnapshotNotFound,
    /// Max capacity reached
    MaxCapacityReached,
    /// Processor is paused
    ProcessorPaused,
    /// System is already paused
    SystemAlreadyPaused,
    /// System is not paused
    SystemNotPaused,
    /// Invalid program state
    InvalidProgramState,
    /// Unknown error
    UnknownError,
    /// Invalid capability configuration
    CapabilityInvalidConfig,
    /// Capability not found
    CapabilityNotFound,
    /// Unauthorized capability access
    CapabilityUnauthorizedAccess,
    /// Namespace validation failed
    CapabilityNamespaceValidationFailed,
    /// Object access denied
    CapabilityObjectAccessDenied,
    /// Invalid capability ID
    CapabilityInvalidId,
    /// Invalid namespace capability - hash verification failed
    NamespaceInvalidCapability,
    /// Object is not within the namespace capability
    NamespaceObjectNotInNamespace,
    /// Object type is not allowed by the namespace capability
    NamespaceObjectTypeNotAllowed,
    /// Too many objects accessed - exceeds capability limit
    NamespaceTooManyObjects,
    /// Namespace capability is empty
    NamespaceEmptyCapability,
    /// Cannot create sub-capability - parent capability insufficient
    NamespaceInsufficientParentCapability,
    /// Capability composition failed - conflicting constraints
    NamespaceCapabilityCompositionFailed,
    /// Function input does not match namespace capability
    NamespaceFunctionInputMismatch,
    /// Only the designated Eval can execute calls
    SessionUnauthorizedCaller,
    /// Session is not active
    SessionNotActive,
    /// Invalid eval program
    SessionInvalidEvalProgram,
    /// Invalid owner
    SessionInvalidOwner,
    /// Invalid target program
    SessionInvalidTargetProgram,
    /// Call data too large - maximum 1024 bytes
    SessionCallDataTooLarge,
    /// Namespace too long - maximum 32 characters
    SessionNamespaceTooLong,
    /// Too many namespaces - maximum 10
    SessionTooManyNamespaces,
    /// Session ID too long - maximum 64 characters
    SessionIdTooLong,
    /// Data key too long - maximum 64 characters
    SessionDataKeyTooLong,
    /// Data value too large - maximum 1024 bytes
    SessionDataValueTooLarge,
    /// Data not found for key
    SessionDataNotFound,
    /// Maximum data entries reached
    SessionMaxDataEntriesReached,
    /// Cross-program invocation failed
    SessionCpiFailed,
    /// Insufficient funds
    SessionInsufficientFunds,
    /// Invalid token account
    SessionInvalidTokenAccount,
    /// Token transfer failed
    SessionTokenTransferFailed,
    /// SOL transfer failed
    SessionSolTransferFailed,
    /// Invalid metadata
    SessionInvalidMetadata,
    /// Session already closed
    SessionAlreadyClosed,
    /// Session not found
    SessionNotFound,
    /// You are not authorized to perform this operation
    FunctionNotAuthorized,
    /// Chain ID cannot be empty
    FunctionEmptyChainId,
    /// Chain ID is too long
    FunctionChainIdTooLong,
    /// Aggregation ID cannot be empty
    FunctionEmptyAggregationId,
    /// Aggregation ID is too long
    FunctionAggregationIdTooLong,
    /// Function steps cannot be empty
    FunctionEmptyFunctionSteps,
    /// Too many steps in function chain
    FunctionTooManySteps,
    /// Input functions cannot be empty
    FunctionEmptyInputFunctions,
    /// Too many input functions
    FunctionTooManyInputFunctions,
    /// Invalid function hash
    FunctionInvalidFunctionHash,
    /// Invalid dependency - step index out of bounds
    FunctionInvalidDependency,
    /// Function chain is inactive
    FunctionChainInactive,
    /// Function aggregation is inactive
    FunctionAggregationInactive,
    /// Step execution failed
    FunctionStepExecutionFailed,
    /// Chain execution failed
    FunctionChainExecutionFailed,
    /// Aggregation execution failed
    FunctionAggregationExecutionFailed,
    /// Input count mismatch
    FunctionInputCountMismatch,
    /// Insufficient inputs for aggregation
    FunctionInsufficientInputs,
    /// Too many inputs for aggregation
    FunctionTooManyInputs,
    /// Insufficient success rate
    FunctionInsufficientSuccessRate,
    /// No successful results to aggregate
    FunctionNoSuccessfulResults,
    /// Circular dependency detected
    FunctionCircularDependency,
    /// Execution timeout
    FunctionExecutionTimeout,
    /// Memory limit exceeded
    FunctionMemoryLimitExceeded,
    /// Invalid execution mode
    FunctionInvalidExecutionMode,
    /// Invalid aggregation mode
    FunctionInvalidAggregationMode,
    /// Invalid condition type
    FunctionInvalidConditionType,
    /// Condition evaluation failed
    FunctionConditionEvaluationFailed,
    /// Step configuration invalid
    FunctionInvalidStepConfiguration,
    /// Aggregation configuration invalid
    FunctionInvalidAggregationConfiguration,
    /// Consensus threshold not met
    FunctionConsensusThresholdNotMet,
    /// Voting failed - no clear winner
    FunctionVotingFailed,
    /// Reduction function failed
    FunctionReductionFunctionFailed,
    /// Custom logic execution failed
    FunctionCustomLogicFailed,
    /// Function step not found
    FunctionStepNotFound,
    /// Composition validation failed
    FunctionCompositionValidationFailed,
    /// Resource allocation failed
    FunctionResourceAllocationFailed,
    /// Parallel execution failed
    FunctionParallelExecutionFailed,
    /// Conditional execution failed
    FunctionConditionalExecutionFailed,
    /// Output transformation failed
    FunctionOutputTransformationFailed,
    /// Input transformation failed
    FunctionInputTransformationFailed,
    /// Metadata update failed
    FunctionMetadataUpdateFailed,
    /// Performance tracking failed
    FunctionPerformanceTrackingFailed,
    /// Function execution failed
    FunctionExecutionFailed,
    /// Function not found
    FunctionNotFound,
    /// You are not authorized to perform this operation
    VerificationUnauthorized,
    /// Invalid verification input
    VerificationInvalidInput,
    /// Verification failed
    VerificationFailed,
    /// Invalid verifier
    VerificationInvalidVerifier,
    /// Verification timeout
    VerificationTimeout,
    /// Invalid execution context
    VerificationInvalidExecutionContext,
    /// Sender is not authorized to execute this capability
    VerificationSenderNotAuthorized,
    /// Permission configuration is not active
    VerificationPermissionConfigNotActive,
    /// Auth configuration is not active
    VerificationAuthConfigNotActive,
    /// Caller is not authorized for this execution level
    VerificationCallerNotAuthorized,
    /// Unauthorized caller
    VerificationUnauthorizedCaller,
    /// Invalid execution level
    VerificationInvalidExecutionLevel,
    /// Block state verification is not active
    VerificationBlockStateNotActive,
    /// Invalid block order - current block must be greater than last execution
    VerificationInvalidBlockOrder,
    /// Transaction is too stale - exceeds maximum block staleness
    VerificationTransactionTooStale,
    /// Invalid block height
    VerificationInvalidBlockHeight,
    /// Block state not found
    VerificationBlockStateNotFound,
    /// Verification not authorized
    VerificationNotAuthorized,
    /// Verification parameter size too large
    VerificationParamSizeTooLarge,
    /// Verification amount exceeds limit
    VerificationAmountExceedsLimit,
    /// Verification system auth required
    VerificationSystemAuthRequired,
    /// Verification invalid session owner
    VerificationInvalidSessionOwner,
    /// Verification invalid params
    VerificationInvalidParams,
    /// Verification block height not reached
    VerificationBlockHeightNotReached,
    /// Verification block height exceeded
    VerificationBlockHeightExceeded,
    /// Verification block height not in range
    VerificationBlockHeightNotInRange,
    /// Verification invalid condition type
    VerificationInvalidConditionType,
    /// Verification session required
    VerificationSessionRequired,
    /// Verification invalid session params
    VerificationInvalidSessionParams,
    /// Verification session expired
    VerificationSessionExpired,
    /// Verification invalid session type
    VerificationInvalidSessionType,
    /// Verification session not initialized
    VerificationSessionNotInitialized,
    /// Constraint configuration is not active
    VerificationConstraintConfigNotActive,
    /// Amount exceeds maximum allowed
    VerificationAmountExceedsMaximum,
    /// Amount is below minimum required
    VerificationAmountBelowMinimum,
    /// Recipient is not in allowlist
    VerificationRecipientNotAllowed,
    /// Slippage exceeds maximum tolerance
    VerificationSlippageExceedsTolerance,
    /// Invalid call parameters
    VerificationInvalidCallParameters,
    /// Session creation verification failed
    VerificationSessionCreationFailed,
    /// Session is not properly registered
    VerificationSessionNotRegistered,
    /// Session is closed or inactive
    VerificationSessionInactive,
    /// Session data mismatch with registry
    VerificationSessionDataMismatch,
    /// Function code is too large - maximum supported size exceeded
    VerificationFunctionCodeTooLarge,
    /// Function name is too long
    VerificationFunctionNameTooLong,
    /// Description string is too long
    VerificationDescriptionTooLong,
    /// Version string is too long
    VerificationVersionTooLong,
    /// Too many tags specified
    VerificationTooManyTags,
    /// Too many dependencies specified
    VerificationTooManyDependencies,
    /// Function hash mismatch - code does not match stored hash
    VerificationFunctionHashMismatch,
    /// Function not found in registry
    VerificationFunctionNotFound,
    /// Function is not approved for use
    VerificationFunctionNotApproved,
    /// Function code cannot be empty
    VerificationFunctionCodeEmpty,
    /// Function already exists with this hash
    VerificationFunctionAlreadyExists,
    /// Invalid function type
    VerificationInvalidFunctionType,
    /// Function usage count overflow
    VerificationFunctionUsageCountOverflow,
    /// Total functions count overflow
    VerificationTotalFunctionsCountOverflow,
    /// Search query limit too high
    VerificationSearchQueryLimitTooHigh,
    /// Search query cannot be empty
    VerificationSearchQueryEmpty,
    /// Search query is too long
    VerificationSearchQueryTooLong,
    /// Dependency verification failed
    VerificationDependencyVerificationFailed,
    /// Performance metrics calculation failed
    VerificationPerformanceMetricsCalculationFailed,
    /// Gateway is not active
    VerificationGatewayNotActive,
    /// Registry is not active
    VerificationRegistryNotActive,
    /// Registry ID mismatch
    VerificationRegistryIdMismatch,
    /// Proof type mismatch
    VerificationProofTypeMismatch,
    /// Unsupported proof type
    VerificationUnsupportedProofType,
    /// Invalid proof size
    VerificationInvalidProofSize,
    /// Invalid verification key
    VerificationInvalidVerificationKey,
    /// Empty verification key
    VerificationEmptyVerificationKey,
    /// Verification key too large
    VerificationVerificationKeyTooLarge,
    /// Proof type too long
    VerificationProofTypeTooLong,
    /// Future block number not allowed
    VerificationFutureBlockNumberNotAllowed,
    /// Block number too stale
    VerificationBlockNumberTooStale,
    /// Invalid domain
    VerificationInvalidDomain,
    /// Public inputs do not match
    VerificationPublicInputsMismatch,
    /// Insufficient public inputs
    VerificationInsufficientPublicInputs,
    /// Proof verification failed
    VerificationProofVerificationFailed,
    /// Version mismatch
    VersionMismatch,
    /// Constraint check failed
    ConstraintCheckFailed,
    /// Invalid execution time - must be between 1 and 3600 seconds
    ExecutionConfigInvalidExecutionTime,
    /// Invalid compute units - must be between 1 and 1,400,000
    ExecutionConfigInvalidComputeUnits,
    /// Invalid gas limit - must be greater than 0
    ExecutionConfigInvalidGasLimit,
    /// Invalid concurrency setting - max_concurrent must be between 1 and 10
    ExecutionConfigInvalidConcurrency,
    /// Invalid memory limit - must be between 1 and 100MB
    ExecutionConfigInvalidMemoryLimit,
    /// Invalid storage limit - must be between 1 and 1GB
    ExecutionConfigInvalidStorageLimit,
    /// Invalid network limit - must be between 1 and 100 requests
    ExecutionConfigInvalidNetworkLimit,
    /// Invalid depth limit - must be between 1 and 20
    ExecutionConfigInvalidDepthLimit,
}

/// Errors of the library registry.
#[derive(Clone, Copy, Debug, PartialEq, Eq, Structural)]
pub enum RegistryError {
    /// Library already exists
    LibraryAlreadyExists,
    /// Library not found
    LibraryNotFound,
    /// Invalid library version
    InvalidLibraryVersion,
    /// Library verification failed
    LibraryVerificationFailed,
    /// Library metadata invalid
    LibraryMetadataInvalid,
    /// ZK program already exists
    ZkProgramAlreadyExists,
    /// ZK program not found
    ZkProgramNotFound,
    /// Invalid verification key
    InvalidVerificationKey,
    /// ZK program verification failed
    ZkProgramVerificationFailed,
    /// Invalid circuit constraints
    InvalidCircuitConstraints,
    /// Dependency already exists
    DependencyAlreadyExists,
    /// Dependency not found
    DependencyNotFound,
    /// Circular dependency detected
    CircularDependency,
    /// Dependency version conflict
    DependencyVersionConflict,
    /// Unresolvable dependency
    UnresolvableDependency,
    /// Version incompatible
    VersionIncompatible,
    /// Version requirement invalid
    VersionRequirementInvalid,
    /// Breaking change detected
    BreakingChangeDetected,
    /// Registry not initialized
    RegistryNotInitialized,
    /// Registry already initialized
    RegistryAlreadyInitialized,
    /// Registry version mismatch
    RegistryVersionMismatch,
    /// Registry migration required
    RegistryMigrationRequired,
}

impl RegistryError {
    /// The numeric code the registry reports for this error.
    pub fn code(&self) -> (r: u32)
        ensures
            r == registry_error_code(*self),
    {
        match self {
            RegistryError::LibraryAlreadyExists => 10000,
            RegistryError::LibraryNotFound => 10001,
            RegistryError::InvalidLibraryVersion => 10002,
            RegistryError::LibraryVerificationFailed => 10003,
            RegistryError::LibraryMetadataInvalid => 10004,
            RegistryError::ZkProgramAlreadyExists => 10100,
            RegistryError::ZkProgramNotFound => 10101,
            RegistryError::InvalidVerificationKey => 10102,
            RegistryError::ZkProgramVerificationFailed => 10103,
            RegistryError::InvalidCircuitConstraints => 10104,
            RegistryError::DependencyAlreadyExists => 10200,
            RegistryError::DependencyNotFound => 10201,
            RegistryError::CircularDependency => 10202,
            RegistryError::DependencyVersionConflict => 10203,
            RegistryError::UnresolvableDependency => 10204,
            RegistryError::VersionIncompatible => 10300,
            RegistryError::VersionRequirementInvalid => 10301,
            RegistryError::BreakingChangeDetected => 10302,
            RegistryError::RegistryNotInitialized => 10400,
            RegistryError::RegistryAlreadyInitialized => 10401,
            RegistryError::RegistryVersionMismatch => 10402,
            RegistryError::RegistryMigrationRequired => 10403,
        }
    }
}

/// The numeric code of each registry error.
pub open spec fn registry_error_code(e: RegistryError) -> u32 {
    match e {
        RegistryError::LibraryAlreadyExists => 10000,
        RegistryError::LibraryNotFound => 10001,
        RegistryError::InvalidLibraryVersion => 10002,
        RegistryError::LibraryVerificationFailed => 10003,
        RegistryError::LibraryMetadataInvalid => 10004,
        RegistryError::ZkProgramAlreadyExists => 10100,
        RegistryError::ZkProgramNotFound => 10101,
        RegistryError::InvalidVerificationKey => 10102,
        RegistryError::ZkProgramVerificationFailed => 10103,
        RegistryError::InvalidCircuitConstraints => 10104,
        RegistryError::DependencyAlreadyExists => 10200,
        RegistryError::DependencyNotFound => 10201,
        RegistryError::CircularDependency => 10202,
        RegistryError::DependencyVersionConflict => 10203,
        RegistryError::UnresolvableDependency => 10204,
        RegistryError::VersionIncompatible => 10300,
        RegistryError::VersionRequirementInvalid => 10301,
        RegistryError::BreakingChangeDetected => 10302,
        RegistryError::RegistryNotInitialized => 10400,
        RegistryError::RegistryAlreadyInitialized => 10401,
        RegistryError::RegistryVersionMismatch => 10402,
        RegistryError::RegistryMigrationRequired => 10403,
    }
}

/// The unified error a registry error is reported as.
pub open spec fn spec_convert_registry_error(error: RegistryError) -> ValenceError {
    match error {
        RegistryError::LibraryNotFound | RegistryError::ZkProgramNotFound | RegistryError::DependencyNotFound => ValenceError::FunctionNotFound,
        RegistryError::LibraryVerificationFailed | RegistryError::ZkProgramVerificationFailed => ValenceError::VerificationFailed,
        RegistryError::VersionIncompatible | RegistryError::VersionRequirementInvalid => ValenceError::VersionMismatch,
        RegistryError::CircularDependency | RegistryError::DependencyVersionConflict => ValenceError::ConstraintCheckFailed,
        RegistryError::RegistryNotInitialized => ValenceError::InvalidProgramState,
        _ => ValenceError::UnknownError,
    }
}

/// Converts a registry error to the unified error category it belongs to.
pub fn convert_registry_error(error: RegistryError) -> (r: ValenceError)
    ensures
        r == spec_convert_registry_error(error),
{
    match error {
        RegistryError::LibraryNotFound | RegistryError::ZkProgramNotFound | RegistryError::DependencyNotFound => ValenceError::FunctionNotFound,
        RegistryError::LibraryVerificationFailed | RegistryError::ZkProgramVerificationFailed => ValenceError::VerificationFailed,
        RegistryError::VersionIncompatible | RegistryError::VersionRequirementInvalid => ValenceError::VersionMismatch,
        RegistryError::CircularDependency | RegistryError::DependencyVersionConflict => ValenceError::ConstraintCheckFailed,
        RegistryError::RegistryNotInitialized => ValenceError::InvalidProgramState,
        _ => ValenceError::UnknownError,
    }
}

/// The processor's errors.
pub type ProcessorError = ValenceError;
/// The scheduler's errors.
pub type SchedulerError = ValenceError;
/// The diff engine's errors.
pub type DiffError = ValenceError;
/// The capability system's errors.
pub type CapabilityError = ValenceError;
/// The namespace scoping errors.
pub type NamespaceScopingError = ValenceError;
/// The session errors.
pub type ValenceSessionError = ValenceError;
/// The function composition errors.
pub type FunctionCompositionError = ValenceError;
/// The verification errors.
pub type VerificationError = ValenceError;
/// The execution configuration errors.
pub type ExecutionConfigError = ValenceError;

/// Errors of the runtime framework itself that the kernel reports.
#[derive(Clone, Copy, Debug, PartialEq, Eq, Structural)]
pub enum FrameworkError {
    /// The account is not initialized.
    AccountNotInitialized,
    /// Not enough account keys were given.
    AccountNotEnoughKeys,
    /// A raw constraint was violated.
    ConstraintRaw,
    /// The runtime could not provide a sysvar.
    UnsupportedSysvar,
}

/// A failure of the kernel or of the runtime under it.
#[derive(Clone, Copy, Debug, PartialEq, Eq, Structural)]
pub enum ProgramFailure {
    /// The kernel refused.
    Kernel(ValenceError),
    /// The runtime failed.
    Framework(FrameworkError),
}

/// Errors of the session factory.
#[derive(Clone, Copy, Debug, PartialEq, Eq, Structural)]
pub enum SessionFactoryError {
    /// Invalid owner address
    InvalidOwner,
    /// Invalid eval program address
    InvalidEvalProgram,
    /// Invalid session ID
    InvalidSessionId,
    /// Too many namespaces
    TooManyNamespaces,
    /// Invalid shard address
    InvalidShard,
    /// Not authorized to perform this action
    NotAuthorized,
    /// Invalid reservation ID
    InvalidReservationId,
    /// Invalid reservation duration
    InvalidReservationDuration,
    /// Invalid reservation configuration
    InvalidReservationConfig,
    /// Reservation has expired
    ReservationExpired,
    /// Reservation already used
    ReservationAlreadyUsed,
    /// Queue full
    QueueFull,
    /// Invalid deadline
    InvalidDeadline,
    /// Invalid queue index
    InvalidQueueIndex,
    /// Initialization deadline passed
    InitDeadlinePassed,
    /// Session mismatch
    SessionMismatch,
    /// Session already active
    SessionAlreadyActive,
}

/// Errors of pure functions.
#[derive(Clone, Copy, Debug, PartialEq, Eq, Structural)]
pub enum FunctionError {
    /// Invalid function input
    InvalidInput,
    /// Function execution failed
    ExecutionFailed,
    /// Invalid function output
    InvalidOutput,
    /// Function not found
    FunctionNotFound,
    /// Insufficient permissions
    InsufficientPermissions,
    /// Function timeout
    Timeout,
}

} // verus!
