//! One discovered PHP binary: a version and the executable path recorded for
//! each execution mode it was seen in.

use vstd::prelude::*;
use crate::version::{PhpVersion, PhpServerSapi};

verus! {

/// The mathematical contents of a [`PhpBinary`]: the version and, per
/// execution mode, the recorded path.
#[verifier::ext_equal]
pub struct BinView {
    pub version: PhpVersion,
    pub fpm: Option<Seq<char>>,
    pub cgi: Option<Seq<char>>,
    pub cli: Option<Seq<char>>,
}

/// One logical PHP release together with the executable paths found for it,
/// at most one path per execution mode.
pub struct PhpBinary {
    pub version: PhpVersion,
    pub fpm: Option<String>,
    pub cgi: Option<String>,
    pub cli: Option<String>,
}

pub open spec fn spec_opt_str_view(o: Option<String>) -> Option<Seq<char>> {
    match o {
        Some(s) => Some(s@),
        None => None,
    }
}

impl View for PhpBinary {
    type V = BinView;

    open spec fn view(&self) -> BinView {
        BinView {
            version: self.version,
            fpm: spec_opt_str_view(self.fpm),
            cgi: spec_opt_str_view(self.cgi),
            cli: spec_opt_str_view(self.cli),
        }
    }
}

/// The path a binary records for one execution mode.
pub open spec fn spec_sapi_path(b: BinView, m: PhpServerSapi) -> Option<Seq<char>> {
    match m {
        PhpServerSapi::FPM => b.fpm,
        PhpServerSapi::CGI => b.cgi,
        PhpServerSapi::CLI => b.cli,
    }
}

/// `b` with the path for mode `m` set to `p`.
pub open spec fn spec_with_sapi(b: BinView, m: PhpServerSapi, p: Seq<char>) -> BinView {
    match m {
        PhpServerSapi::FPM => BinView { fpm: Some(p), ..b },
        PhpServerSapi::CGI => BinView { cgi: Some(p), ..b },
        PhpServerSapi::CLI => BinView { cli: Some(p), ..b },
    }
}

/// `b` with the path for mode `m` set to `p` only where `b` has none yet:
/// the first recorded path for a mode is kept.
pub open spec fn spec_bin_add_if_absent(b: BinView, m: PhpServerSapi, p: Seq<char>) -> BinView {
    if spec_sapi_path(b, m) is Some {
        b
    } else {
        spec_with_sapi(b, m, p)
    }
}

/// A binary with no recorded paths yet.
pub open spec fn spec_bin_empty(v: PhpVersion) -> BinView {
    BinView { version: v, fpm: None, cgi: None, cli: None }
}

/// Mode-wise merge of two binaries for the same version: a mode already
/// present in `a` is never overwritten; a mode only `b` has is added.
pub open spec fn spec_bin_merge(a: BinView, b: BinView) -> BinView {
    BinView {
        version: a.version,
        fpm: if a.fpm is Some {
            a.fpm
        } else {
            b.fpm
        },
        cgi: if a.cgi is Some {
            a.cgi
        } else {
            b.cgi
        },
        cli: if a.cli is Some {
            a.cli
        } else {
            b.cli
        },
    }
}

/// Every mode `b` offers, `a` already has (with some path).
pub open spec fn spec_bin_absorbs(a: BinView, b: BinView) -> bool {
    &&& b.fpm is Some ==> a.fpm is Some
    &&& b.cgi is Some ==> a.cgi is Some
    &&& b.cli is Some ==> a.cli is Some
}

/// The path preferred when one binary must stand for a whole release:
/// direct invocation first, then the worker manager, then per-request.
pub open spec fn spec_preferred_path(b: BinView) -> Option<Seq<char>> {
    if b.cli is Some {
        b.cli
    } else if b.fpm is Some {
        b.fpm
    } else {
        b.cgi
    }
}

impl PhpBinary {
    /// A binary of the given version with no recorded paths.
    pub fn from_version(version: PhpVersion) -> (r: PhpBinary)
        ensures
            r@ == spec_bin_empty(version),
    {
        PhpBinary { version, fpm: None, cgi: None, cli: None }
    }

    pub fn version(&self) -> (r: PhpVersion)
        ensures
            r == self@.version,
    {
        self.version
    }

    /// Whether a path is recorded for the given mode.
    pub fn has_sapi(&self, sapi: &PhpServerSapi) -> (r: bool)
        ensures
            r == (spec_sapi_path(self@, *sapi) is Some),
    {
        match sapi {
            PhpServerSapi::FPM => self.fpm.is_some(),
            PhpServerSapi::CGI => self.cgi.is_some(),
            PhpServerSapi::CLI => self.cli.is_some(),
        }
    }

    /// Records `path` for the given mode, replacing any path held for it.
    pub fn add_sapi(&mut self, sapi: &PhpServerSapi, path: &str)
        ensures
            final (self)@ == spec_with_sapi(old(self)@, *sapi, path@),
    {
        let owned = path.to_owned();
        match sapi {
            PhpServerSapi::FPM => {
                self.fpm = Some(owned);
            },
            PhpServerSapi::CGI => {
                self.cgi = Some(owned);
            },
            PhpServerSapi::CLI => {
                self.cli = Some(owned);
            },
        }
    }

    /// The recorded path for the given mode.
    pub fn path_for(&self, sapi: &PhpServerSapi) -> (r: Option<&String>)
        ensures
            match r {
                Some(p) => spec_sapi_path(self@, *sapi) == Some(p@),
                None => spec_sapi_path(self@, *sapi) is None,
            },
    {
        match sapi {
            PhpServerSapi::FPM => self.fpm.as_ref(),
            PhpServerSapi::CGI => self.cgi.as_ref(),
            PhpServerSapi::CLI => self.cli.as_ref(),
        }
    }

    /// The preferred path of this binary, if it has any path at all.
    pub fn preferred_path(&self) -> (r: Option<&String>)
        ensures
            match r {
                Some(p) => spec_preferred_path(self@) == Some(p@),
                None => spec_preferred_path(self@) is None,
            },
    {
        if self.cli.is_some() {
            self.cli.as_ref()
        } else if self.fpm.is_some() {
            self.fpm.as_ref()
        } else {
            self.cgi.as_ref()
        }
    }

    /// An identical copy.
    pub fn duplicate(&self) -> (r: PhpBinary)
        ensures
            r@ == self@,
    {
        PhpBinary {
            version: self.version,
            fpm: match &self.fpm {
                Some(s) => Some(s.clone()),
                None => None,
            },
            cgi: match &self.cgi {
                Some(s) => Some(s.clone()),
                None => None,
            },
            cli: match &self.cli {
                Some(s) => Some(s.clone()),
                None => None,
            },
        }
    }

    /// Adds to this binary every mode `other` has that this one lacks; a
    /// mode already present keeps its path. When nothing was missing, the
    /// binary is left exactly as it was.
    pub fn merge_with(&mut self, other: PhpBinary)
        ensures
            final (self)@ == spec_bin_merge(old(self)@, other@),
            spec_bin_absorbs(old(self)@, other@) ==> *final (self) == *old(self),
    {
        if self.fpm.is_none() {
            self.fpm = other.fpm;
        }
        if self.cgi.is_none() {
            self.cgi = other.cgi;
        }
        if self.cli.is_none() {
            self.cli = other.cli;
        }
    }
}

} // verus!
