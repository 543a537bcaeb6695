use crate::error::HTTPError;
use vstd::prelude::*;

verus! {

/// The basic settings of the application.
#[derive(Debug, Clone, Default)]
pub struct BasicConfig {
    /// The address to listen on.
    pub listen: String,
    /// How many requests may be in the works at once; between 0 and 100000.
    pub processing_limit: i32,
    /// After how many seconds a request is given up.
    pub timeout: u64,
    /// The path under which the routes are mounted.
    pub prefix: Option<String>,
    /// The commit that the application was built from.
    pub commit_id: String,
}

/// The largest processing limit that is accepted.
pub const MAX_PROCESSING_LIMIT: i32 = 100000;

/// The message of the error for a processing limit out of range.
pub open spec fn limit_out_of_range() -> Seq<char> {
    "processing_limit must be between 0 and 100000"@
}

/// The message of the error for a second initialisation.
pub open spec fn init_failed() -> Seq<char> {
    "basic config init failed"@
}

/// The category of the errors of this module.
pub open spec fn config_category() -> Seq<char> {
    "config"@
}

impl BasicConfig {
    /// Whether the settings are acceptable.
    pub open spec fn valid(&self) -> bool {
        0 <= self.processing_limit <= MAX_PROCESSING_LIMIT
    }

    /// Checks the settings.
    pub fn validate(&self) -> (r: Result<(), HTTPError>)
        ensures
            r is Ok <==> self.valid(),
            r is Err ==> r->Err_0.message@ == limit_out_of_range() && r->Err_0.category@
                == config_category() && r->Err_0.status == 400,
    {
        if self.processing_limit < 0 || self.processing_limit > MAX_PROCESSING_LIMIT {
            Err(HTTPError::new("processing_limit must be between 0 and 100000", "config"))
        } else {
            Ok(())
        }
    }
}

/// Puts checked settings into the slot that holds the application's basic
/// settings. It fails, and leaves the slot as it is, where the settings are
/// not acceptable or the slot is taken.
pub fn init_config(slot: &mut Option<BasicConfig>, config: BasicConfig) -> (r: Result<(), HTTPError>)
    ensures
        r is Ok <==> config.valid() && *old(slot) is None,
        r is Ok ==> *final(slot) == Some(config),
        r is Err ==> *final(slot) == *old(slot) && r->Err_0.category@ == config_category(),
        r is Err && !config.valid() ==> r->Err_0.message@ == limit_out_of_range(),
        r is Err && config.valid() ==> r->Err_0.message@ == init_failed(),
{
    match config.validate() {
        Err(e) => Err(e),
        Ok(()) => {
            if slot.is_some() {
                Err(HTTPError::new("basic config init failed", "config"))
            } else {
                *slot = Some(config);
                Ok(())
            }
        },
    }
}

/// The application's basic settings, which have been initialised.
pub fn must_get_basic_config(slot: &Option<BasicConfig>) -> (r: &BasicConfig)
    requires
        *slot is Some,
    ensures
        *r == slot->0,
{
    match slot {
        Some(config) => config,
        None => vstd::pervasive::unreached(),
    }
}

/// A copy of a value that lives in task-local storage.
pub fn clone_value_from_task_local<T: Clone>(value: &T) -> (r: T)
    ensures
        cloned(*value, r),
{
    value.clone()
}

} // verus!
