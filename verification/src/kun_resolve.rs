//! How a shared Kun runtime is reached. Each check hands on to the next one, so that
//! nothing is asked of a runtime whose process, listener and build were not checked.

use vstd::prelude::*;

use crate::error;
use crate::error::{RuntimeError, KUN_RUNTIME_IDENTITY_MISMATCH};
use crate::http;
use crate::http::LocalHttpEndpoint;
use crate::json::Json;
use crate::kun_record;
use crate::kun_record::{
    info_data_dir, is_startup_race, read_record, record_endpoint, runtime_build_metadata,
    verify_runtime_info, KunRecord, KunRuntimeBuildMetadata, MetadataRead,
};
use crate::text;

verus! {

/// A record that was read. Nothing in it was checked.
pub struct KunRecordRead {
    record: KunRecord,
}

/// A record whose process runs, and where its runtime should listen.
pub struct KunEndpointFound {
    record: KunRecord,
    endpoint: LocalHttpEndpoint,
}

/// A runtime whose process owns the listener.
pub struct KunListenerChecked {
    record: KunRecord,
    endpoint: LocalHttpEndpoint,
}

/// A runtime whose build is the one that is installed.
pub struct KunBuildChecked {
    record: KunRecord,
    endpoint: LocalHttpEndpoint,
    metadata: KunRuntimeBuildMetadata,
}

/// A runtime that has answered as the one that its record names.
pub struct KunConnection {
    record: KunRecord,
    endpoint: LocalHttpEndpoint,
    data_dir: String,
}

/// Whether the runtime of a record listens there: the address that it names and the
/// host and port that it names lead to the same place, which is on this machine.
pub open spec fn listens_at(
    record: kun_record::KunRecordView,
    resolved: Seq<Vec<u16>>,
    e: LocalHttpEndpoint,
) -> bool {
    &&& http::base_host_port(record.base_url) matches Some((host, port)) && http::resolves_to(
        host,
        port,
        resolved,
        e,
    )
    &&& http::resolvable(record.host, resolved)
    &&& http::resolves_to(record.host, record.port, resolved, e)
}

/// Whether the address that a record names can be looked up.
pub open spec fn base_is_resolvable(
    record: kun_record::KunRecordView,
    resolved: Seq<Vec<u16>>,
) -> bool {
    http::base_host_port(record.base_url) matches Some((host, port)) && http::resolvable(
        host,
        resolved,
    )
}

impl KunRecordRead {
    pub closed spec fn view(&self) -> kun_record::KunRecordView {
        self.record@
    }

    /// Reads the text of a record; `None` stands for one that cannot be read.
    pub fn read(content: Option<&str>) -> (r: Result<Self, RuntimeError>)
        ensures
            ({
                let view = match content {
                    Some(s) => Some(s@),
                    None => None,
                };
                match r {
                    Ok(x) => kun_record::record_text(view) == Ok::<
                        kun_record::KunRecordView,
                        error::ErrorView,
                    >(x@),
                    Err(e) => kun_record::record_text(view) == Err::<
                        kun_record::KunRecordView,
                        error::ErrorView,
                    >(e@),
                }
            }),
    {
        match read_record(content) {
            Ok(record) => Ok(KunRecordRead { record }),
            Err(e) => Err(e),
        }
    }

    /// The process whose life is to be checked.
    pub fn pid(&self) -> (r: u64)
        ensures
            r == self@.pid,
    {
        self.record.pid
    }

    /// Takes whether the process runs, and what the look-up of `localhost` gave.
    pub fn on_process(self, alive: bool, expected_service_version: &str, resolved: &Vec<Vec<u16>>)
        -> (r: Result<KunEndpointFound, RuntimeError>)
        ensures
            match r {
                Ok(x) => x@ == self@ && kun_record::is_expected(
                    self@,
                    alive,
                    expected_service_version@,
                ) && listens_at(self@, resolved@, x.place()),
                Err(e) => e@ == kun_record::mismatch() && !(kun_record::is_expected(
                    self@,
                    alive,
                    expected_service_version@,
                ) && exists|x: LocalHttpEndpoint| #[trigger]
                    listens_at(self@, resolved@, x) && base_is_resolvable(self@, resolved@)),
            },
    {
        match record_endpoint(&self.record, alive, expected_service_version, resolved) {
            Ok(endpoint) => Ok(KunEndpointFound { record: self.record, endpoint }),
            Err(e) => Err(e),
        }
    }
}

impl KunEndpointFound {
    pub closed spec fn view(&self) -> kun_record::KunRecordView {
        self.record@
    }

    pub closed spec fn place(&self) -> LocalHttpEndpoint {
        self.endpoint
    }

    pub fn pid(&self) -> (r: u64)
        ensures
            r == self@.pid,
    {
        self.record.pid
    }

    /// Where the listener is, whose owner is to be checked.
    pub fn endpoint(&self) -> (r: &LocalHttpEndpoint)
        ensures
            *r == self.place(),
    {
        &self.endpoint
    }

    /// Takes whether the process owns the listener. Where owners cannot be told, they
    /// are not asked for.
    pub fn on_listener(self, owned: bool, windows: bool) -> (r: Result<
        KunListenerChecked,
        RuntimeError,
    >)
        ensures
            match r {
                Ok(x) => (owned || !windows) && x@ == self@ && x.place() == self.place(),
                Err(e) => !owned && windows && e@ == kun_record::mismatch(),
            },
    {
        if windows && !owned {
            return Err(RuntimeError::protocol(KUN_RUNTIME_IDENTITY_MISMATCH));
        }
        Ok(KunListenerChecked { record: self.record, endpoint: self.endpoint })
    }
}

impl KunListenerChecked {
    pub closed spec fn view(&self) -> kun_record::KunRecordView {
        self.record@
    }

    pub closed spec fn place(&self) -> LocalHttpEndpoint {
        self.endpoint
    }

    pub fn pid(&self) -> (r: u64)
        ensures
            r == self@.pid,
    {
        self.record.pid
    }

    /// Takes what was read of the build in each directory, and whether the directory
    /// was named.
    pub fn on_metadata(
        self,
        reads: &Vec<(MetadataRead, bool)>,
        expected_build_id: &Option<String>,
    ) -> (r: Result<KunBuildChecked, RuntimeError>)
        ensures
            ({
                let fits = installed(self@, reads@, text::opt_text(*expected_build_id));
                match r {
                    Ok(x) => fits && x@ == self@ && x.place() == self.place() && x.valid(),
                    Err(e) => !fits && e@ == kun_record::mismatch(),
                }
            }),
    {
        match runtime_build_metadata(
            reads,
            self.record.build_id.as_str(),
            self.record.service_version.as_str(),
            expected_build_id,
        ) {
            Ok(metadata) => {
                proof {
                    assert(metadata.build_id@ == self.record@.build_id);
                }
                Ok(KunBuildChecked { record: self.record, endpoint: self.endpoint, metadata })
            },
            Err(e) => Err(e),
        }
    }
}

/// Whether the build of a record is the one that is installed: the first directory
/// that decides says so.
pub open spec fn installed(
    record: kun_record::KunRecordView,
    reads: Seq<(MetadataRead, bool)>,
    expected_build_id: Option<Seq<char>>,
) -> bool {
    let i = kun_record::deciding(reads);
    i < reads.len() && match reads[i].0 {
        MetadataRead::Content(content) => kun_record::metadata_fits(
            content@,
            record.build_id,
            record.service_version,
            expected_build_id,
        ),
        _ => false,
    }
}

impl KunBuildChecked {
    pub closed spec fn view(&self) -> kun_record::KunRecordView {
        self.record@
    }

    pub closed spec fn place(&self) -> LocalHttpEndpoint {
        self.endpoint
    }

    /// What was installed is what the record names.
    pub closed spec fn valid(&self) -> bool {
        self.metadata.build_id@ == self.record@.build_id && self.metadata.service_version@
            == self.record@.service_version
    }

    /// Where the runtime is asked what it is.
    pub fn endpoint(&self) -> (r: &LocalHttpEndpoint)
        ensures
            *r == self.place(),
    {
        &self.endpoint
    }

    /// What the runtime is asked with.
    pub fn token(&self) -> (r: &str)
        ensures
            r@ == self@.runtime_token,
    {
        self.record.runtime_token.as_str()
    }

    /// The data directory that the runtime reports, which is to be made canonical.
    pub fn reported_dir(&self, info: &Json) -> (r: Result<String, RuntimeError>)
        ensures
            match r {
                Ok(s) => kun_record::safe_member(info.tree(), "dataDir"@) == Some(s@),
                Err(e) => kun_record::safe_member(info.tree(), "dataDir"@) is None && e@
                    == kun_record::mismatch(),
            },
    {
        info_data_dir(info)
    }

    /// Takes what the runtime says of itself.
    pub fn on_info(self, data_dir: String, info: &Json, reported_dir: &str, windows: bool) -> (r:
        Result<KunConnection, RuntimeError>)
        requires
            self.valid(),
        ensures
            ({
                let same = kun_record::is_runtime_of(
                    self@,
                    data_dir@,
                    self@.build_id,
                    self@.service_version,
                    info.tree(),
                    reported_dir@,
                    windows,
                );
                match r {
                    Ok(c) => same && c@ == self@ && c.place() == self.place() && c.home()
                        == data_dir@,
                    Err(e) => !same && e@ == kun_record::mismatch(),
                }
            }),
    {
        match verify_runtime_info(
            &self.record,
            data_dir.as_str(),
            &self.metadata,
            info,
            reported_dir,
            windows,
        ) {
            Ok(_) => Ok(KunConnection { record: self.record, endpoint: self.endpoint, data_dir }),
            Err(e) => Err(e),
        }
    }
}

impl KunConnection {
    pub closed spec fn view(&self) -> kun_record::KunRecordView {
        self.record@
    }

    pub closed spec fn place(&self) -> LocalHttpEndpoint {
        self.endpoint
    }

    pub closed spec fn home(&self) -> Seq<char> {
        self.data_dir@
    }

    pub fn record(&self) -> (r: &KunRecord)
        ensures
            r@ == self@,
    {
        &self.record
    }

    pub fn endpoint(&self) -> (r: &LocalHttpEndpoint)
        ensures
            *r == self.place(),
    {
        &self.endpoint
    }

    pub fn token(&self) -> (r: &str)
        ensures
            r@ == self@.runtime_token,
    {
        self.record.runtime_token.as_str()
    }

    pub fn data_dir(&self) -> (r: &str)
        ensures
            r@ == self.home(),
    {
        self.data_dir.as_str()
    }
}

/// The pause before another try, in nanoseconds.
pub const STARTUP_RETRY_PAUSE_NS: u128 = 25_000_000;

/// How long to wait before a runtime is looked for again: not at all, unless it has
/// not come up yet and there is time left.
pub fn retry_pause(e: &RuntimeError, left: Option<u128>) -> (r: Option<u128>)
    ensures
        r == if e@ == error::ErrorView::Transport(error::KUN_SHARED_RUNTIME_UNAVAILABLE@) {
            match left {
                Some(n) => if n <= STARTUP_RETRY_PAUSE_NS {
                    Some(n)
                } else {
                    Some(STARTUP_RETRY_PAUSE_NS)
                },
                None => None,
            }
        } else {
            None
        },
{
    if !is_startup_race(e) {
        return None;
    }
    match left {
        Some(n) => if n <= STARTUP_RETRY_PAUSE_NS {
            Some(n)
        } else {
            Some(STARTUP_RETRY_PAUSE_NS)
        },
        None => None,
    }
}

/// Where the data of Kun lies: where the configuration says, or else the environment.
pub fn kun_data_dir(
    configured: &Option<String>,
    named: &Option<String>,
    home: &Option<String>,
    local: &str,
) -> (r: String)
    ensures
        r@ == match *configured {
            Some(d) => d@,
            None => match *named {
                Some(d) => d@,
                None => match *home {
                    Some(d) => d@,
                    None => local@,
                },
            },
        },
{
    match configured {
        Some(d) => d.clone(),
        None => match named {
            Some(d) => d.clone(),
            None => match home {
                Some(d) => d.clone(),
                None => local.to_owned(),
            },
        },
    }
}

} // verus!
