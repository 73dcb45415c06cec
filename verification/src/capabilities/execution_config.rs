//! Per-application execution settings, resource limits and their checks.

use vstd::prelude::*;
use crate::error::ValenceError;

verus! {

/// The execution settings of an application.
#[derive(Debug)]
pub struct ExecutionConfig {
    /// Longest execution allowed, in seconds.
    pub max_execution_time: Option<u64>,
    /// Compute units allowed per capability.
    pub max_compute_units: Option<u64>,
    pub record_execution: bool,
    pub parameters: Option<Vec<u8>>,
    pub gas_limit: Option<u64>,
    /// 0 to 255; 128 is the middle.
    pub priority: u8,
    pub enable_parallel: bool,
    pub max_concurrent: u8,
}

/// How executions run.
#[derive(Debug, Clone, Copy, PartialEq, Eq, Structural)]
pub enum ExecutionMode {
    Synchronous,
    Asynchronous,
    Batch { batch_size: u8 },
    Streaming { chunk_size: u32 },
}

/// Limits on the resources of an execution.
#[derive(Debug, Clone, Copy, PartialEq, Eq, Structural)]
pub struct ResourceLimits {
    /// Bytes of memory.
    pub max_memory: Option<u64>,
    /// Bytes of storage.
    pub max_storage: Option<u64>,
    pub max_network_requests: Option<u32>,
    pub max_depth: Option<u8>,
}

/// All execution settings together.
#[derive(Debug)]
pub struct CompleteExecutionConfig {
    pub execution: ExecutionConfig,
    pub mode: ExecutionMode,
    pub resources: ResourceLimits,
    pub custom_config: Option<Vec<u8>>,
}

/// The parameters as a byte sequence, if any.
pub open spec fn params_view(p: Option<Vec<u8>>) -> Option<Seq<u8>> {
    match p {
        Some(v) => Some(v@),
        None => None,
    }
}

/// The settings are within their bounds: a time of 1 to 3600 seconds,
/// 1 to 1,400,000 compute units and a positive gas limit where set, and 1
/// to 10 concurrent executions where parallel execution is on; the first
/// setting out of bounds decides the error.
pub open spec fn config_outcome(c: ExecutionConfig) -> Result<(), ValenceError> {
    if c.max_execution_time matches Some(t) && !(t > 0 && t <= 3600) {
        Err(ValenceError::ExecutionConfigInvalidExecutionTime)
    } else if c.max_compute_units matches Some(u) && !(u > 0 && u <= 1_400_000) {
        Err(ValenceError::ExecutionConfigInvalidComputeUnits)
    } else if c.gas_limit matches Some(g) && g == 0 {
        Err(ValenceError::ExecutionConfigInvalidGasLimit)
    } else if c.enable_parallel && !(c.max_concurrent > 0 && c.max_concurrent <= 10) {
        Err(ValenceError::ExecutionConfigInvalidConcurrency)
    } else {
        Ok(())
    }
}

/// The limits are within their bounds: memory up to 100,000,000 bytes,
/// storage up to 1,000,000,000 bytes, 1 to 100 network requests and a depth
/// of 1 to 20, each positive, where set; the first limit out of bounds
/// decides the error.
pub open spec fn limits_outcome(l: ResourceLimits) -> Result<(), ValenceError> {
    if l.max_memory matches Some(m) && !(m > 0 && m <= 100_000_000) {
        Err(ValenceError::ExecutionConfigInvalidMemoryLimit)
    } else if l.max_storage matches Some(s) && !(s > 0 && s <= 1_000_000_000) {
        Err(ValenceError::ExecutionConfigInvalidStorageLimit)
    } else if l.max_network_requests matches Some(n) && !(n > 0 && n <= 100) {
        Err(ValenceError::ExecutionConfigInvalidNetworkLimit)
    } else if l.max_depth matches Some(d) && !(d > 0 && d <= 20) {
        Err(ValenceError::ExecutionConfigInvalidDepthLimit)
    } else {
        Ok(())
    }
}

/// The first of two options that is set.
pub open spec fn first_set<T>(a: Option<T>, b: Option<T>) -> Option<T> {
    match a {
        Some(x) => Some(x),
        None => b,
    }
}

/// A copy of optional bytes.
fn copy_params(p: &Option<Vec<u8>>) -> (r: Option<Vec<u8>>)
    ensures
        params_view(r) == params_view(*p),
{
    match p {
        Some(v) => {
            let c = v.clone();
            assert(c@ =~= v@);
            Some(c)
        }
        None => None,
    }
}

impl ExecutionConfig {
    /// The default settings: 60 seconds, 200,000 compute units, priority
    /// 128, one execution at a time, nothing recorded, no gas limit.
    pub fn new() -> (r: ExecutionConfig)
        ensures
            r.max_execution_time == Some(60u64),
            r.max_compute_units == Some(200_000u64),
            !r.record_execution,
            r.parameters is None,
            r.gas_limit is None,
            r.priority == 128,
            !r.enable_parallel,
            r.max_concurrent == 1,
    {
        ExecutionConfig {
            max_execution_time: Some(60),
            max_compute_units: Some(200_000),
            record_execution: false,
            parameters: None,
            gas_limit: None,
            priority: 128,
            enable_parallel: false,
            max_concurrent: 1,
        }
    }

    /// The settings with another time limit.
    pub fn with_max_execution_time(self, max_time: u64) -> (r: ExecutionConfig)
        ensures
            r == (ExecutionConfig { max_execution_time: Some(max_time), ..self }),
    {
        let mut s = self;
        s.max_execution_time = Some(max_time);
        s
    }

    /// The settings with another compute limit.
    pub fn with_max_compute_units(self, max_compute: u64) -> (r: ExecutionConfig)
        ensures
            r == (ExecutionConfig { max_compute_units: Some(max_compute), ..self }),
    {
        let mut s = self;
        s.max_compute_units = Some(max_compute);
        s
    }

    /// The settings with recording on or off.
    pub fn with_recording(self, record: bool) -> (r: ExecutionConfig)
        ensures
            r == (ExecutionConfig { record_execution: record, ..self }),
    {
        let mut s = self;
        s.record_execution = record;
        s
    }

    /// The settings with parameters.
    pub fn with_parameters(self, params: Vec<u8>) -> (r: ExecutionConfig)
        ensures
            r == (ExecutionConfig { parameters: Some(params), ..self }),
    {
        let mut s = self;
        s.parameters = Some(params);
        s
    }

    /// The settings with a gas limit.
    pub fn with_gas_limit(self, gas: u64) -> (r: ExecutionConfig)
        ensures
            r == (ExecutionConfig { gas_limit: Some(gas), ..self }),
    {
        let mut s = self;
        s.gas_limit = Some(gas);
        s
    }

    /// The settings with another priority.
    pub fn with_priority(self, priority: u8) -> (r: ExecutionConfig)
        ensures
            r == (ExecutionConfig { priority, ..self }),
    {
        let mut s = self;
        s.priority = priority;
        s
    }

    /// The settings with parallel execution on or off.
    pub fn with_parallel_execution(self, enable: bool, max_concurrent: u8) -> (r: ExecutionConfig)
        ensures
            r == (ExecutionConfig { enable_parallel: enable, max_concurrent, ..self }),
    {
        let mut s = self;
        s.enable_parallel = enable;
        s.max_concurrent = max_concurrent;
        s
    }

    /// Checks the settings: see `config_outcome`.
    pub fn validate(&self) -> (r: Result<(), ValenceError>)
        ensures
            r == config_outcome(*self),
    {
        if let Some(max_time) = self.max_execution_time {
            if !(max_time > 0 && max_time <= 3600) {
                return Err(ValenceError::ExecutionConfigInvalidExecutionTime);
            }
        }
        if let Some(max_compute) = self.max_compute_units {
            if !(max_compute > 0 && max_compute <= 1_400_000) {
                return Err(ValenceError::ExecutionConfigInvalidComputeUnits);
            }
        }
        if let Some(gas) = self.gas_limit {
            if gas == 0 {
                return Err(ValenceError::ExecutionConfigInvalidGasLimit);
            }
        }
        if self.enable_parallel {
            if !(self.max_concurrent > 0 && self.max_concurrent <= 10) {
                return Err(ValenceError::ExecutionConfigInvalidConcurrency);
            }
        }
        Ok(())
    }

    /// The settings of `self`, each completed from `other` where unset;
    /// recording and parallel execution on where either has them on; the
    /// priority of `self` unless it is the middle 128; the larger
    /// concurrency.
    pub fn merge_with(&self, other: &ExecutionConfig) -> (r: ExecutionConfig)
        ensures
            r.max_execution_time == first_set(self.max_execution_time, other.max_execution_time),
            r.max_compute_units == first_set(self.max_compute_units, other.max_compute_units),
            r.record_execution == (self.record_execution || other.record_execution),
            params_view(r.parameters) == first_set(params_view(self.parameters), params_view(other.parameters)),
            r.gas_limit == first_set(self.gas_limit, other.gas_limit),
            r.priority == (if self.priority != 128 { self.priority } else { other.priority }),
            r.enable_parallel == (self.enable_parallel || other.enable_parallel),
            r.max_concurrent == (if self.max_concurrent >= other.max_concurrent { self.max_concurrent } else { other.max_concurrent }),
    {
        let parameters = if self.parameters.is_some() { copy_params(&self.parameters) } else { copy_params(&other.parameters) };
        ExecutionConfig {
            max_execution_time: if self.max_execution_time.is_some() { self.max_execution_time } else { other.max_execution_time },
            max_compute_units: if self.max_compute_units.is_some() { self.max_compute_units } else { other.max_compute_units },
            record_execution: self.record_execution || other.record_execution,
            parameters,
            gas_limit: if self.gas_limit.is_some() { self.gas_limit } else { other.gas_limit },
            priority: if self.priority != 128 { self.priority } else { other.priority },
            enable_parallel: self.enable_parallel || other.enable_parallel,
            max_concurrent: if self.max_concurrent >= other.max_concurrent { self.max_concurrent } else { other.max_concurrent },
        }
    }
}

impl Default for ExecutionConfig {
    fn default() -> (r: Self)
        ensures
            r.max_execution_time == Some(60u64),
            r.max_compute_units == Some(200_000u64),
            !r.record_execution,
            r.parameters is None,
            r.gas_limit is None,
            r.priority == 128,
            !r.enable_parallel,
            r.max_concurrent == 1,
    {
        Self::new()
    }
}

impl Default for ExecutionMode {
    fn default() -> (r: Self)
        ensures
            r == ExecutionMode::Synchronous,
    {
        ExecutionMode::Synchronous
    }
}

impl ResourceLimits {
    /// The default limits: 1 MB of memory, 10 MB of storage, 10 network
    /// requests, a depth of 5.
    pub fn new() -> (r: ResourceLimits)
        ensures
            r == (ResourceLimits { max_memory: Some(1_000_000), max_storage: Some(10_000_000), max_network_requests: Some(10), max_depth: Some(5) }),
    {
        ResourceLimits { max_memory: Some(1_000_000), max_storage: Some(10_000_000), max_network_requests: Some(10), max_depth: Some(5) }
    }

    /// Checks the limits: see `limits_outcome`.
    pub fn validate(&self) -> (r: Result<(), ValenceError>)
        ensures
            r == limits_outcome(*self),
    {
        if let Some(memory) = self.max_memory {
            if !(memory > 0 && memory <= 100_000_000) {
                return Err(ValenceError::ExecutionConfigInvalidMemoryLimit);
            }
        }
        if let Some(storage) = self.max_storage {
            if !(storage > 0 && storage <= 1_000_000_000) {
                return Err(ValenceError::ExecutionConfigInvalidStorageLimit);
            }
        }
        if let Some(requests) = self.max_network_requests {
            if !(requests > 0 && requests <= 100) {
                return Err(ValenceError::ExecutionConfigInvalidNetworkLimit);
            }
        }
        if let Some(depth) = self.max_depth {
            if !(depth > 0 && depth <= 20) {
                return Err(ValenceError::ExecutionConfigInvalidDepthLimit);
            }
        }
        Ok(())
    }
}

impl Default for ResourceLimits {
    fn default() -> (r: Self)
        ensures
            r == (ResourceLimits { max_memory: Some(1_000_000), max_storage: Some(10_000_000), max_network_requests: Some(10), max_depth: Some(5) }),
    {
        Self::new()
    }
}

impl CompleteExecutionConfig {
    /// The default settings, synchronous, with the default limits and no
    /// custom data.
    pub fn new() -> (r: CompleteExecutionConfig)
        ensures
            r.execution.max_execution_time == Some(60u64),
            r.execution.max_compute_units == Some(200_000u64),
            r.execution.priority == 128,
            r.execution.max_concurrent == 1,
            !r.execution.enable_parallel,
            r.execution.gas_limit is None,
            r.mode == ExecutionMode::Synchronous,
            r.resources == ResourceLimits::spec_default(),
            r.custom_config is None,
    {
        CompleteExecutionConfig {
            execution: ExecutionConfig::default(),
            mode: ExecutionMode::default(),
            resources: ResourceLimits::default(),
            custom_config: None,
        }
    }

    /// Checks the settings, then the limits.
    pub fn validate(&self) -> (r: Result<(), ValenceError>)
        ensures
            r == (if config_outcome(self.execution) is Err { config_outcome(self.execution) } else { limits_outcome(self.resources) }),
    {
        match self.execution.validate() {
            Ok(()) => {}
            Err(e) => { return Err(e); }
        }
        self.resources.validate()
    }
}

impl ResourceLimits {
    /// The default limits.
    pub open spec fn spec_default() -> ResourceLimits {
        ResourceLimits { max_memory: Some(1_000_000), max_storage: Some(10_000_000), max_network_requests: Some(10), max_depth: Some(5) }
    }
}

impl Default for CompleteExecutionConfig {
    fn default() -> (r: Self)
        ensures
            r.mode == ExecutionMode::Synchronous,
            r.resources == ResourceLimits::spec_default(),
            r.custom_config is None,
    {
        Self::new()
    }
}

} // verus!
