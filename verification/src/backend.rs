//! Starting the selected binary: which execution mode a session uses, what
//! the handle to the started backend must record, and the environment a
//! per-request backend receives — all decided before any process is
//! spawned.

use vstd::prelude::*;
use crate::binary::{PhpBinary, BinView, spec_sapi_path};
use crate::version::PhpServerSapi;

verus! {

/// What the proxy needs to reach a started backend.
pub enum BackendHandle {
    /// A long-lived worker-pool manager listening on a local port.
    WorkerManager { executable: String, port: u16 },
    /// One process spawned per request, spoken to over its standard
    /// streams and environment.
    PerRequestProcess { executable: String },
    /// The runtime invoked directly with the script path as argument.
    DirectInvocation { executable: String },
}

/// The chosen binary records no executable for the chosen mode, so no
/// backend can start and the session must not accept HTTP traffic.
#[derive(Clone, Copy, PartialEq, Eq, Structural, Debug)]
pub enum BackendStartError {
    NoExecutableForMode,
}

/// The mode a session serves with, by preference: the worker manager
/// first, then per-request processes, then direct invocation.
pub open spec fn spec_serving_mode(b: BinView) -> Option<PhpServerSapi> {
    if b.fpm is Some {
        Some(PhpServerSapi::FPM)
    } else if b.cgi is Some {
        Some(PhpServerSapi::CGI)
    } else if b.cli is Some {
        Some(PhpServerSapi::CLI)
    } else {
        None
    }
}

/// Chooses the execution mode a session serves with, preferring the worker
/// manager, then per-request processes, then direct invocation; nothing
/// when the binary records no path at all.
pub fn choose_mode(binary: &PhpBinary) -> (r: Option<PhpServerSapi>)
    ensures
        r == spec_serving_mode(binary@),
{
    if binary.has_sapi(&PhpServerSapi::FPM) {
        Some(PhpServerSapi::FPM)
    } else if binary.has_sapi(&PhpServerSapi::CGI) {
        Some(PhpServerSapi::CGI)
    } else if binary.has_sapi(&PhpServerSapi::CLI) {
        Some(PhpServerSapi::CLI)
    } else {
        None
    }
}

/// Plans the backend for one session: the handle carries the mode's
/// executable path, and for the worker manager the local port it is to
/// listen on. Exactly the binaries that record a path for the mode can
/// start; on any other binary the session fails before serving.
pub fn plan_backend(binary: &PhpBinary, mode: &PhpServerSapi, port: u16) -> (r: Result<
    BackendHandle,
    BackendStartError,
>)
    ensures
        match r {
            Ok(h) => {
                &&& spec_sapi_path(binary@, *mode) is Some
                &&& match h {
                    BackendHandle::WorkerManager { executable, port: p } => {
                        &&& *mode == PhpServerSapi::FPM
                        &&& Some(executable@) == spec_sapi_path(binary@, *mode)
                        &&& p == port
                    },
                    BackendHandle::PerRequestProcess { executable } => {
                        &&& *mode == PhpServerSapi::CGI
                        &&& Some(executable@) == spec_sapi_path(binary@, *mode)
                    },
                    BackendHandle::DirectInvocation { executable } => {
                        &&& *mode == PhpServerSapi::CLI
                        &&& Some(executable@) == spec_sapi_path(binary@, *mode)
                    },
                }
            },
            Err(e) => {
                &&& spec_sapi_path(binary@, *mode) is None
                &&& e == BackendStartError::NoExecutableForMode
            },
        },
{
    let executable = match binary.path_for(mode) {
        Some(p) => p.clone(),
        None => {
            return Err(BackendStartError::NoExecutableForMode);
        },
    };
    match mode {
        PhpServerSapi::FPM => Ok(BackendHandle::WorkerManager { executable, port }),
        PhpServerSapi::CGI => Ok(BackendHandle::PerRequestProcess { executable }),
        PhpServerSapi::CLI => Ok(BackendHandle::DirectInvocation { executable }),
    }
}

/// The environment a per-request backend receives: the gateway tag, the
/// script to run, the request's query string and its method, in that
/// order and nothing else.
pub fn request_environment(method: &str, query: &str, script_filename: &str) -> (r: Vec<
    (String, String),
>)
    ensures
        r@.len() == 4,
        r@[0].0@ == ("GATEWAY_INTERFACE")@ && r@[0].1@ == ("CGI/1.1")@,
        r@[1].0@ == ("SCRIPT_FILENAME")@ && r@[1].1@ == script_filename@,
        r@[2].0@ == ("QUERY_STRING")@ && r@[2].1@ == query@,
        r@[3].0@ == ("REQUEST_METHOD")@ && r@[3].1@ == method@,
{
    let mut r: Vec<(String, String)> = Vec::new();
    r.push(("GATEWAY_INTERFACE".to_owned(), "CGI/1.1".to_owned()));
    r.push(("SCRIPT_FILENAME".to_owned(), script_filename.to_owned()));
    r.push(("QUERY_STRING".to_owned(), query.to_owned()));
    r.push(("REQUEST_METHOD".to_owned(), method.to_owned()));
    r
}

} // verus!
