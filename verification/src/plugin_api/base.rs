//! The base plugin contract and its error vocabulary.

use vstd::prelude::*;
use vstd::string::StringExecFns;
use crate::plugin_api::types::{PluginMetadata, PluginMetadataView, PluginType, PluginTypeView};

verus! {

/// Identity of a plugin; `name` is the key under which it is registered.
#[derive(Debug)]
pub struct PluginConfig {
    pub name: String,
    pub description: String,
    pub version: String,
    pub plugin_type: PluginType,
}

/// Mathematical value of a [`PluginConfig`].
pub struct PluginConfigView {
    pub name: Seq<char>,
    pub description: Seq<char>,
    pub version: Seq<char>,
    pub plugin_type: PluginTypeView,
}

impl View for PluginConfig {
    type V = PluginConfigView;

    open spec fn view(&self) -> PluginConfigView {
        PluginConfigView {
            name: self.name@,
            description: self.description@,
            version: self.version@,
            plugin_type: self.plugin_type@,
        }
    }
}

impl Clone for PluginConfig {
    fn clone(&self) -> (r: Self)
        ensures
            r@ == self@,
    {
        PluginConfig {
            name: self.name.clone(),
            description: self.description.clone(),
            version: self.version.clone(),
            plugin_type: self.plugin_type.clone(),
        }
    }
}

/// Every failure a capability method can report.
#[derive(Debug)]
pub enum PluginError {
    NotImplemented,
    NotFound(String),
    AlreadyExists(String),
    InvalidInput(String),
    ExecutionError(String),
    Other(String),
}

/// Mathematical value of a [`PluginError`].
pub enum PluginErrorView {
    NotImplemented,
    NotFound(Seq<char>),
    AlreadyExists(Seq<char>),
    InvalidInput(Seq<char>),
    ExecutionError(Seq<char>),
    Other(Seq<char>),
}

impl View for PluginError {
    type V = PluginErrorView;

    open spec fn view(&self) -> PluginErrorView {
        match self {
            PluginError::NotImplemented => PluginErrorView::NotImplemented,
            PluginError::NotFound(s) => PluginErrorView::NotFound(s@),
            PluginError::AlreadyExists(s) => PluginErrorView::AlreadyExists(s@),
            PluginError::InvalidInput(s) => PluginErrorView::InvalidInput(s@),
            PluginError::ExecutionError(s) => PluginErrorView::ExecutionError(s@),
            PluginError::Other(s) => PluginErrorView::Other(s@),
        }
    }
}

impl PluginErrorView {
    /// The user-facing text of an error: a fixed label, then the detail.
    pub open spec fn message(self) -> Seq<char> {
        match self {
            PluginErrorView::NotImplemented => "Operation not implemented"@,
            PluginErrorView::NotFound(s) => "Not found: "@ + s,
            PluginErrorView::AlreadyExists(s) => "Already exists: "@ + s,
            PluginErrorView::InvalidInput(s) => "Invalid input: "@ + s,
            PluginErrorView::ExecutionError(s) => "Execution error: "@ + s,
            PluginErrorView::Other(s) => "Error: "@ + s,
        }
    }
}

impl Clone for PluginError {
    fn clone(&self) -> (r: Self)
        ensures
            r@ == self@,
    {
        match self {
            PluginError::NotImplemented => PluginError::NotImplemented,
            PluginError::NotFound(s) => PluginError::NotFound(s.clone()),
            PluginError::AlreadyExists(s) => PluginError::AlreadyExists(s.clone()),
            PluginError::InvalidInput(s) => PluginError::InvalidInput(s.clone()),
            PluginError::ExecutionError(s) => PluginError::ExecutionError(s.clone()),
            PluginError::Other(s) => PluginError::Other(s.clone()),
        }
    }
}

impl PluginError {
    /// The user-facing text of this error.
    pub fn message(&self) -> (r: String)
        ensures
            r@ == self@.message(),
    {
        match self {
            PluginError::NotImplemented => String::from_str("Operation not implemented"),
            PluginError::NotFound(s) => String::from_str("Not found: ").concat(s.as_str()),
            PluginError::AlreadyExists(s) => String::from_str("Already exists: ").concat(
                s.as_str(),
            ),
            PluginError::InvalidInput(s) => String::from_str("Invalid input: ").concat(s.as_str()),
            PluginError::ExecutionError(s) => String::from_str("Execution error: ").concat(
                s.as_str(),
            ),
            PluginError::Other(s) => String::from_str("Error: ").concat(s.as_str()),
        }
    }
}

/// The view of a lifecycle call's outcome.
pub open spec fn outcome_view(r: Result<(), PluginError>) -> Result<(), PluginErrorView> {
    match r {
        Ok(()) => Ok(()),
        Err(e) => Err(e@),
    }
}

/// The base contract of every plugin, built in or loaded.
///
/// `initialize_allows` and `cleanup_allows` say, for each implementation,
/// which state and outcome one call of the lifecycle method may leave behind.
/// An implementation that does not describe itself is taken to advertise
/// some configuration and metadata, and to allow every outcome. A plugin
/// can be sent to and shared between threads.
pub trait Plugin: Sized + Send + Sync {
    /// The configuration this plugin advertises.
    open spec fn config(&self) -> PluginConfigView {
        arbitrary()
    }

    /// The metadata this plugin advertises.
    open spec fn metadata_view(&self) -> PluginMetadataView {
        arbitrary()
    }

    /// Whether one call of `initialize` on `self` may end in `after` with `outcome`.
    open spec fn initialize_allows(
        &self,
        after: &Self,
        outcome: Result<(), PluginErrorView>,
    ) -> bool {
        true
    }

    /// Whether one call of `cleanup` on `self` may end in `after` with `outcome`.
    open spec fn cleanup_allows(&self, after: &Self, outcome: Result<(), PluginErrorView>) -> bool {
        true
    }

    fn get_config(&self) -> (c: &PluginConfig)
        ensures
            c@ == self.config(),
    ;

    fn metadata(&self) -> (m: PluginMetadata)
        ensures
            m@ == self.metadata_view(),
    ;

    fn initialize(&mut self) -> (r: Result<(), PluginError>)
        ensures
            old(self).initialize_allows(final(self), outcome_view(r)),
    ;

    fn cleanup(&mut self) -> (r: Result<(), PluginError>)
        ensures
            old(self).cleanup_allows(final(self), outcome_view(r)),
    ;
}

/// A factory that hands over sole ownership of a new plugin; it takes
/// nothing but itself.
pub trait PluginFactory: Send + Sync {
    /// The plugins that this factory makes.
    type Output: Plugin;

    /// Makes a plugin, or says why it cannot.
    fn create(&self) -> Result<Self::Output, PluginError>;
}

} // verus!
