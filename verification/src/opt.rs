use vstd::prelude::*;

use crate::cli::Cli;
use crate::constants::MAX_PARALLEL_DOWNLOAD;
use crate::error::Error;
use crate::url_ops::{spec_url_parse, spec_url_parse_ok, url_parse};

verus! {

/// The options the downloader runs with, checked and bounded.
#[derive(Debug, Clone)]
pub struct Opt {
    /// dest path
    pub dest: String,
    /// parallel worker num, at most `MAX_PARALLEL_DOWNLOAD`
    pub worker: usize,
    /// `source_file` used for from file
    pub source: Option<String>,
    /// url to download, as the serialization of the parsed URL
    pub url: Option<String>,
}

/// The number of workers granted for a requested number.
pub open spec fn spec_worker(requested: usize) -> usize {
    if requested < MAX_PARALLEL_DOWNLOAD {
        requested
    } else {
        MAX_PARALLEL_DOWNLOAD
    }
}

/// The granted worker count is the smaller of the request and the cap: it
/// exceeds neither, and is one of them.
pub proof fn lemma_worker_is_min(requested: usize)
    ensures
        spec_worker(requested) <= requested,
        spec_worker(requested) <= MAX_PARALLEL_DOWNLOAD,
        spec_worker(requested) == requested || spec_worker(requested) == MAX_PARALLEL_DOWNLOAD,
        requested >= MAX_PARALLEL_DOWNLOAD ==> spec_worker(requested) == MAX_PARALLEL_DOWNLOAD,
        requested <= MAX_PARALLEL_DOWNLOAD ==> spec_worker(requested) == requested,
{
}

impl Opt {
    /// Checks the command line: the worker count is capped at
    /// `MAX_PARALLEL_DOWNLOAD`, and a URL, where given, must parse.
    pub fn try_from(cli: Cli) -> (res: Result<Opt, Error>)
        ensures
            res is Ok <==> (cli.source.url matches Some(u) ==> spec_url_parse_ok(u@) is Some),
            res matches Ok(opt) ==> {
                &&& opt.dest == cli.dest
                &&& opt.worker == spec_worker(cli.worker)
                &&& opt.source == cli.source.source
                &&& (opt.url is None <==> cli.source.url is None)
                &&& (opt.url matches Some(x) ==> spec_url_parse_ok(cli.source.url->0@) == Some(x@))
            },
            res matches Err(e) ==> (e matches Error::InvalidUrl(s) && cli.source.url matches Some(
                u,
            ) && spec_url_parse(u@) matches Err(t) && s@ == t),
            // the worker count never exceeds the cap, and is kept when within it
            res matches Ok(opt) ==> opt.worker <= MAX_PARALLEL_DOWNLOAD && (cli.worker
                <= MAX_PARALLEL_DOWNLOAD ==> opt.worker == cli.worker),
            // a request at or above the cap is granted exactly the cap
            res matches Ok(opt) ==> (cli.worker >= MAX_PARALLEL_DOWNLOAD ==> opt.worker
                == MAX_PARALLEL_DOWNLOAD),
    {
        let worker = if cli.worker < MAX_PARALLEL_DOWNLOAD {
            cli.worker
        } else {
            MAX_PARALLEL_DOWNLOAD
        };
        let url = match cli.source.url {
            None => None,
            Some(s) => match url_parse(s.as_str()) {
                Ok(u) => Some(u),
                Err(reason) => {
                    return Err(Error::InvalidUrl(reason));
                },
            },
        };
        Ok(Opt { dest: cli.dest, worker, source: cli.source.source, url })
    }
}

} // verus!
