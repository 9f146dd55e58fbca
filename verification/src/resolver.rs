//! Key source resolution: obtaining a key's raw PEM bytes by trying an
//! ordered list of sources, each independently fallible.
//!
//! The order is a fixed trust hierarchy: a remote blob store first, then an
//! inline configuration value, then a local file. The resolver performs no
//! I/O itself: it is a step machine that tells its caller which fetch to
//! perform next, and the caller reports the outcome. A source that succeeds
//! ends the resolution, so no later source is ever invoked after a success.
//! When every source fails, the failure of the last attempted source is
//! surfaced and earlier failures are discarded.

use vstd::prelude::*;
use vstd::string::StrSliceExecFns;
use vstd::utf8::encode_utf8;
use crate::errors::FluffError;

verus! {

/// The three possible source descriptors for one key: a path in the remote
/// blob store, the raw key text inline, and a local file path. An absent
/// descriptor means that source is not configured.
pub struct KeySourceConfig {
    pub remote_path: Option<String>,
    pub inline_value: Option<String>,
    pub file_path: Option<String>,
}

/// The mathematical shape of a source configuration.
#[verifier::ext_equal]
pub ghost struct KeySourceConfigView {
    pub remote_path: Option<Seq<char>>,
    pub inline_value: Option<Seq<char>>,
    pub file_path: Option<Seq<char>>,
}

impl View for KeySourceConfig {
    type V = KeySourceConfigView;

    open spec fn view(&self) -> KeySourceConfigView {
        KeySourceConfigView {
            remote_path: self.remote_path.deep_view(),
            inline_value: self.inline_value.deep_view(),
            file_path: self.file_path.deep_view(),
        }
    }
}

/// A fetch the resolver asks its caller to perform.
pub enum KeyFetchRequest {
    /// Read an object from the remote blob store at this path.
    Remote { path: String },
    /// Read this local file.
    LocalFile { path: String },
}

/// Where a resolution stands after a step.
pub enum KeyResolution {
    /// The caller must perform this fetch and report its outcome.
    Fetch { request: KeyFetchRequest },
    /// A source succeeded; these are the key's raw bytes.
    Resolved { key: Vec<u8> },
    /// Every attempted source failed; this is the last source's failure.
    Failed { error: FluffError },
}

/// The mathematical shape of a resolution step. A failure is one of exactly
/// two kinds: the last attempted source's configuration was absent, or its
/// configured file could not be read.
#[verifier::ext_equal]
pub ghost enum ResolutionStepView {
    FetchRemote { path: Seq<char> },
    FetchFile { path: Seq<char> },
    Resolved { key: Seq<u8> },
    FailedMissing,
    FailedUnavailable,
}

impl View for KeyResolution {
    type V = ResolutionStepView;

    open spec fn view(&self) -> ResolutionStepView {
        match self {
            KeyResolution::Fetch { request: KeyFetchRequest::Remote { path } } => {
                ResolutionStepView::FetchRemote { path: path@ }
            },
            KeyResolution::Fetch { request: KeyFetchRequest::LocalFile { path } } => {
                ResolutionStepView::FetchFile { path: path@ }
            },
            KeyResolution::Resolved { key } => ResolutionStepView::Resolved { key: key@ },
            KeyResolution::Failed { error } => {
                if error.error_name@ == "KeyMissing"@ {
                    ResolutionStepView::FailedMissing
                } else {
                    ResolutionStepView::FailedUnavailable
                }
            },
        }
    }
}

/// The canonical missing-configuration failure.
pub open spec fn spec_is_missing_error(e: FluffError) -> bool {
    &&& e.http_code == 500
    &&& e.error_name@ == "KeyMissing"@
    &&& e.can_retry
}

/// The canonical unreadable-file failure.
pub open spec fn spec_is_unavailable_error(e: FluffError) -> bool {
    &&& e.http_code == 500
    &&& e.error_name@ == "KeyUnavailable"@
    &&& e.can_retry
}

/// The first step of a resolution: request the remote fetch when that source
/// is configured, else fall through to the sources after it.
pub open spec fn spec_begin(cfg: KeySourceConfigView) -> ResolutionStepView {
    if cfg.remote_path is Some {
        ResolutionStepView::FetchRemote { path: cfg.remote_path->0 }
    } else {
        spec_past_remote(cfg)
    }
}

/// Where a resolution goes once the remote source is exhausted (unconfigured
/// or failed): the inline value's UTF-8 bytes when present, else a file
/// fetch when a path is configured, else the missing-configuration failure
/// of the last source.
pub open spec fn spec_past_remote(cfg: KeySourceConfigView) -> ResolutionStepView {
    if cfg.inline_value is Some {
        ResolutionStepView::Resolved { key: encode_utf8(cfg.inline_value->0) }
    } else if cfg.file_path is Some {
        ResolutionStepView::FetchFile { path: cfg.file_path->0 }
    } else {
        ResolutionStepView::FailedMissing
    }
}

/// The step after the remote fetch reports: its bytes on success, else the
/// remaining sources in order.
pub open spec fn spec_after_remote(
    cfg: KeySourceConfigView,
    outcome: Option<Seq<u8>>,
) -> ResolutionStepView {
    match outcome {
        Some(b) => ResolutionStepView::Resolved { key: b },
        None => spec_past_remote(cfg),
    }
}

/// The step after the file read reports: its bytes on success, else the
/// unreadable-file failure — the file is the last source, so its failure is
/// the one surfaced.
pub open spec fn spec_after_file(outcome: Option<Seq<u8>>) -> ResolutionStepView {
    match outcome {
        Some(b) => ResolutionStepView::Resolved { key: b },
        None => ResolutionStepView::FailedUnavailable,
    }
}

impl KeySourceConfig {
    fn missing_error() -> (e: FluffError)
        ensures
            spec_is_missing_error(e),
            e.context@.len() == 0,
    {
        FluffError::new_u16(
            500,
            "KeyMissing",
            "No key source is configured for this key",
            true,
        )
    }

    fn step_past_remote(&self) -> (r: KeyResolution)
        ensures
            r@ == spec_past_remote(self@),
            r matches KeyResolution::Failed { error } ==> spec_is_missing_error(error),
    {
        match &self.inline_value {
            Some(v) => {
                let r = KeyResolution::Resolved { key: v.as_str().as_bytes_vec() };
                r
            },
            None => match &self.file_path {
                Some(p) => KeyResolution::Fetch {
                    request: KeyFetchRequest::LocalFile { path: p.clone() },
                },
                None => {
                    let e = Self::missing_error();
                    proof {
                        reveal_strlit("KeyMissing");
                    }
                    KeyResolution::Failed { error: e }
                },
            },
        }
    }

    /// Starts a resolution with the first step of the fixed source order.
    pub fn begin(&self) -> (r: KeyResolution)
        ensures
            r@ == spec_begin(self@),
            r matches KeyResolution::Failed { error } ==> spec_is_missing_error(error),
    {
        match &self.remote_path {
            Some(p) => KeyResolution::Fetch {
                request: KeyFetchRequest::Remote { path: p.clone() },
            },
            None => self.step_past_remote(),
        }
    }

    /// Continues after the remote fetch: the first success ends the
    /// resolution; on failure the later sources are tried in order, and the
    /// remote failure is discarded, never surfaced.
    pub fn after_remote(&self, outcome: Result<Vec<u8>, FluffError>) -> (r: KeyResolution)
        ensures
            r@ == spec_after_remote(
                self@,
                match outcome {
                    Ok(b) => Some(b@),
                    Err(_) => None,
                },
            ),
            r matches KeyResolution::Failed { error } ==> spec_is_missing_error(error),
    {
        match outcome {
            Ok(b) => KeyResolution::Resolved { key: b },
            Err(_) => self.step_past_remote(),
        }
    }

    /// Continues after the local file read: the file is the last source, so
    /// a failure (reported as the I/O error's text) becomes the surfaced
    /// unreadable-file failure, with that text as its context.
    pub fn after_file(&self, outcome: Result<Vec<u8>, String>) -> (r: KeyResolution)
        ensures
            r@ == spec_after_file(
                match outcome {
                    Ok(b) => Some(b@),
                    Err(_) => None,
                },
            ),
            (match outcome {
                Ok(_) => true,
                Err(io_text) => r matches KeyResolution::Failed { error } && {
                    &&& spec_is_unavailable_error(error)
                    &&& error.context.deep_view() == seq![io_text@]
                },
            }),
    {
        match outcome {
            Ok(b) => {
                let r = KeyResolution::Resolved { key: b };
                proof {
                    assert(r@ =~~= spec_after_file(Some(b@)));
                }
                r
            },
            Err(io_text) => {
                let e = FluffError::new_u16(
                    500,
                    "KeyUnavailable",
                    "Unable to read the key file",
                    true,
                ).add_context(io_text.as_str());
                let r = KeyResolution::Failed { error: e };
                proof {
                    reveal_strlit("KeyMissing");
                    reveal_strlit("KeyUnavailable");
                    assert("KeyMissing"@.len() == 10);
                    assert("KeyUnavailable"@.len() == 14);
                    assert(e.context.deep_view() =~= seq![io_text@]);
                    assert(r@ =~~= spec_after_file(None));
                }
                r
            },
        }
    }
}

/// Key resolution tries remote store, inline configuration, then file, in
/// that order: with only the file source configured, the first step is the
/// file fetch and its successful read resolves the key; with no source
/// configured at all, resolution fails with the missing-configuration
/// failure.
pub proof fn lemma_resolution_order(cfg: KeySourceConfigView, key: Seq<u8>)
    ensures
        (cfg.remote_path is None && cfg.inline_value is None && cfg.file_path is Some)
            ==> spec_begin(cfg) == (ResolutionStepView::FetchFile { path: cfg.file_path->0 }),
        spec_after_file(Some(key)) == (ResolutionStepView::Resolved { key }),
        cfg.remote_path is None && cfg.inline_value is None && cfg.file_path is None
            ==> spec_begin(cfg) == (ResolutionStepView::FailedMissing {}),
{
}

/// Resolution never invokes a later source once an earlier one has
/// succeeded: a successful fetch outcome makes the resolution resolve
/// immediately, and a present inline value resolves without requesting the
/// file fetch.
pub proof fn lemma_first_success_is_final(cfg: KeySourceConfigView, key: Seq<u8>)
    ensures
        spec_after_remote(cfg, Some(key)) == (ResolutionStepView::Resolved { key }),
        spec_after_file(Some(key)) == (ResolutionStepView::Resolved { key }),
        (cfg.remote_path is None && cfg.inline_value is Some) ==> spec_begin(cfg)
            == (ResolutionStepView::Resolved { key: encode_utf8(cfg.inline_value->0) }),
        !(spec_after_remote(cfg, Some(key)) is FetchFile),
        !(spec_after_remote(cfg, Some(key)) is FetchRemote),
{
}

} // verus!
