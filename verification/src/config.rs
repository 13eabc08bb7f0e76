//! Exporter configuration: delivery targets and tunables.
//!
//! The host resolves raw environment text and hands the values here; this
//! module owns every decision about them: trimming, defaulting, number
//! parsing, pairing endpoints with keys, and removing duplicate targets.
//! Durations are carried as plain millisecond counts.

use vstd::prelude::*;
use vstd::string::StringExecFns;
use vstd::string::StrSliceExecFns;
use crate::text;

verus! {

/// Default instrumentation scope name.
pub const DEFAULT_SCOPE_NAME: &'static str = "seq_everruns_bridge";

/// Default service name reported in the resource attributes.
pub const DEFAULT_SERVICE_NAME: &'static str = "seq-everruns-bridge";

/// Default deployment environment reported in the resource attributes.
pub const DEFAULT_ENV: &'static str = "local";

/// Default bounded queue capacity.
pub const DEFAULT_QUEUE_CAPACITY: usize = 4096;

/// Default maximum number of spans per flushed batch.
pub const DEFAULT_MAX_BATCH_SIZE: usize = 128;

/// Default flush interval in milliseconds.
pub const DEFAULT_FLUSH_INTERVAL_MS: u64 = 50;

/// Default connect timeout in milliseconds.
pub const DEFAULT_CONNECT_TIMEOUT_MS: u64 = 400;

/// Default request timeout in milliseconds.
pub const DEFAULT_REQUEST_TIMEOUT_MS: u64 = 800;

/// One delivery target: an ingest endpoint and its authentication key.
/// Two targets are the same target exactly when both fields agree.
#[derive(Clone, Debug)]
pub struct MapleIngestTarget {
    pub traces_endpoint: String,
    pub ingest_key: String,
}

/// The identity of a target: its endpoint and key text.
pub open spec fn target_view(t: MapleIngestTarget) -> (Seq<char>, Seq<char>) {
    (t.traces_endpoint@, t.ingest_key@)
}

/// The identities of a target list.
pub open spec fn target_views(ts: Seq<MapleIngestTarget>) -> Seq<(Seq<char>, Seq<char>)> {
    ts.map_values(|t: MapleIngestTarget| target_view(t))
}

/// A malformed target configuration, fatal to exporter construction.
#[derive(Clone, Debug)]
pub enum MapleConfigError {
    /// The endpoint list and the key list have different lengths.
    EndpointKeyCountMismatch { endpoints: usize, keys: usize },
    /// An endpoint was given without its key, or a key without its endpoint.
    IncompletePair { prefix: &'static str },
}

/// The human-readable description of a configuration error.
pub open spec fn spec_config_error_message(e: MapleConfigError) -> Seq<char> {
    match e {
        MapleConfigError::EndpointKeyCountMismatch { endpoints, keys } => {
            "SEQ_EVERRUNS_MAPLE_TRACES_ENDPOINTS count ("@ + text::spec_dec_chars(endpoints as int)
                + ") does not match SEQ_EVERRUNS_MAPLE_INGEST_KEYS count ("@
                + text::spec_dec_chars(keys as int) + ")"@
        },
        MapleConfigError::IncompletePair { prefix } => {
            prefix@ + " endpoint/key must both be set"@
        },
    }
}

impl MapleConfigError {
    /// Renders the error for display by the host.
    pub fn message(&self) -> (r: String)
        ensures
            r@ == spec_config_error_message(*self),
    {
        match self {
            MapleConfigError::EndpointKeyCountMismatch { endpoints, keys } => {
                let mut s = String::from_str("SEQ_EVERRUNS_MAPLE_TRACES_ENDPOINTS count (");
                text::push_dec_u64(&mut s, *endpoints as u64);
                s.append(") does not match SEQ_EVERRUNS_MAPLE_INGEST_KEYS count (");
                text::push_dec_u64(&mut s, *keys as u64);
                s.append(")");
                proof {
                    assert(s@ =~= spec_config_error_message(*self));
                }
                s
            },
            MapleConfigError::IncompletePair { prefix } => {
                let mut s = String::from_str(*prefix);
                s.append(" endpoint/key must both be set");
                proof {
                    assert(s@ =~= spec_config_error_message(*self));
                }
                s
            },
        }
    }
}

/// The exporter's immutable tunables, fixed for its whole lifetime.
/// Durations are millisecond counts; the capacities are at least 1 once
/// built through [`MapleExporterConfig::from_env_values`] or `default`.
#[derive(Clone, Debug)]
pub struct MapleExporterConfig {
    pub service_name: String,
    pub service_version: Option<String>,
    pub deployment_environment: String,
    pub scope_name: String,
    pub queue_capacity: usize,
    pub max_batch_size: usize,
    pub flush_interval_ms: u64,
    pub connect_timeout_ms: u64,
    pub request_timeout_ms: u64,
    pub targets: Vec<MapleIngestTarget>,
}

impl Default for MapleExporterConfig {
    /// The configuration with every tunable at its default and no targets.
    fn default() -> (r: Self)
        ensures
            r.service_name@ == DEFAULT_SERVICE_NAME@,
            r.service_version is None,
            r.deployment_environment@ == DEFAULT_ENV@,
            r.scope_name@ == DEFAULT_SCOPE_NAME@,
            r.queue_capacity == DEFAULT_QUEUE_CAPACITY,
            r.max_batch_size == DEFAULT_MAX_BATCH_SIZE,
            r.flush_interval_ms == DEFAULT_FLUSH_INTERVAL_MS,
            r.connect_timeout_ms == DEFAULT_CONNECT_TIMEOUT_MS,
            r.request_timeout_ms == DEFAULT_REQUEST_TIMEOUT_MS,
            r.targets@.len() == 0,
    {
        MapleExporterConfig {
            service_name: String::from_str(DEFAULT_SERVICE_NAME),
            service_version: None,
            deployment_environment: String::from_str(DEFAULT_ENV),
            scope_name: String::from_str(DEFAULT_SCOPE_NAME),
            queue_capacity: DEFAULT_QUEUE_CAPACITY,
            max_batch_size: DEFAULT_MAX_BATCH_SIZE,
            flush_interval_ms: DEFAULT_FLUSH_INTERVAL_MS,
            connect_timeout_ms: DEFAULT_CONNECT_TIMEOUT_MS,
            request_timeout_ms: DEFAULT_REQUEST_TIMEOUT_MS,
            targets: Vec::new(),
        }
    }
}

/// The trimmed text of an optional raw value; unset reads as empty.
pub open spec fn spec_opt_trim(o: Option<&str>) -> Seq<char> {
    match o {
        Some(s) => text::spec_trim(s@),
        None => Seq::<char>::empty(),
    }
}

/// A raw string value, trimmed, with a default for unset or blank.
pub open spec fn spec_text_or(o: Option<&str>, d: Seq<char>) -> Seq<char> {
    if spec_opt_trim(o).len() > 0 {
        spec_opt_trim(o)
    } else {
        d
    }
}

/// A raw `u64` value, trimmed and parsed, with a default for unset,
/// blank or unparsable text.
pub open spec fn spec_u64_or(o: Option<&str>, d: u64) -> u64 {
    match text::spec_parse_u64(spec_opt_trim(o)) {
        Some(v) => v,
        None => d,
    }
}

/// A raw `usize` value: as [`spec_u64_or`], rejecting values over
/// `usize::MAX`.
pub open spec fn spec_usize_or(o: Option<&str>, d: usize) -> usize {
    match text::spec_parse_u64(spec_opt_trim(o)) {
        Some(v) => if v <= usize::MAX as u64 {
            v as usize
        } else {
            d
        },
        None => d,
    }
}

fn opt_non_empty(o: Option<&str>) -> (r: Option<String>)
    ensures
        (r is Some) == (spec_opt_trim(o).len() > 0),
        r matches Some(t) ==> t@ == spec_opt_trim(o),
{
    match o {
        Some(s) => text::non_empty(s),
        None => None,
    }
}

fn u64_or(o: Option<&str>, d: u64) -> (r: u64)
    ensures
        r == spec_u64_or(o, d),
{
    match opt_non_empty(o) {
        Some(t) => {
            match text::parse_u64_dec(t.as_str()) {
                Some(v) => v,
                None => d,
            }
        },
        None => {
            proof {
                // blank input: the trimmed text is empty, which never parses
                assert(text::spec_parse_u64(spec_opt_trim(o)) is None);
            }
            d
        },
    }
}

fn usize_or(o: Option<&str>, d: usize) -> (r: usize)
    ensures
        r == spec_usize_or(o, d),
{
    match opt_non_empty(o) {
        Some(t) => {
            match text::parse_u64_dec(t.as_str()) {
                Some(v) => {
                    if v <= usize::MAX as u64 {
                        v as usize
                    } else {
                        d
                    }
                },
                None => d,
            }
        },
        None => {
            proof {
                assert(text::spec_parse_u64(spec_opt_trim(o)) is None);
            }
            d
        },
    }
}

impl MapleExporterConfig {
    /// Builds the configuration from already-read raw environment values.
    /// Text values fall back to their defaults when unset or blank, numeric
    /// values also when unparsable, and both capacities are raised to at
    /// least 1.
    pub fn from_env_values(
        targets: Vec<MapleIngestTarget>,
        service_name: Option<&str>,
        service_version: Option<&str>,
        deployment_environment: Option<&str>,
        scope_name: Option<&str>,
        queue_capacity: Option<&str>,
        max_batch_size: Option<&str>,
        flush_interval_ms: Option<&str>,
        connect_timeout_ms: Option<&str>,
        request_timeout_ms: Option<&str>,
    ) -> (r: Self)
        ensures
            r.service_name@ == spec_text_or(service_name, DEFAULT_SERVICE_NAME@),
            (r.service_version is Some) == (spec_opt_trim(service_version).len() > 0),
            r.service_version matches Some(v) ==> v@ == spec_opt_trim(service_version),
            r.deployment_environment@ == spec_text_or(deployment_environment, DEFAULT_ENV@),
            r.scope_name@ == spec_text_or(scope_name, DEFAULT_SCOPE_NAME@),
            r.queue_capacity == spec_max_usize(
                spec_usize_or(queue_capacity, DEFAULT_QUEUE_CAPACITY),
                1,
            ),
            r.max_batch_size == spec_max_usize(
                spec_usize_or(max_batch_size, DEFAULT_MAX_BATCH_SIZE),
                1,
            ),
            r.flush_interval_ms == spec_u64_or(flush_interval_ms, DEFAULT_FLUSH_INTERVAL_MS),
            r.connect_timeout_ms == spec_u64_or(connect_timeout_ms, DEFAULT_CONNECT_TIMEOUT_MS),
            r.request_timeout_ms == spec_u64_or(request_timeout_ms, DEFAULT_REQUEST_TIMEOUT_MS),
            r.targets == targets,
            r.queue_capacity >= 1,
            r.max_batch_size >= 1,
    {
        let service_name_v = match opt_non_empty(service_name) {
            Some(t) => t,
            None => String::from_str(DEFAULT_SERVICE_NAME),
        };
        let deployment_environment_v = match opt_non_empty(deployment_environment) {
            Some(t) => t,
            None => String::from_str(DEFAULT_ENV),
        };
        let scope_name_v = match opt_non_empty(scope_name) {
            Some(t) => t,
            None => String::from_str(DEFAULT_SCOPE_NAME),
        };
        let queue_capacity_v = max_usize(usize_or(queue_capacity, DEFAULT_QUEUE_CAPACITY), 1);
        let max_batch_size_v = max_usize(usize_or(max_batch_size, DEFAULT_MAX_BATCH_SIZE), 1);
        MapleExporterConfig {
            service_name: service_name_v,
            service_version: opt_non_empty(service_version),
            deployment_environment: deployment_environment_v,
            scope_name: scope_name_v,
            queue_capacity: queue_capacity_v,
            max_batch_size: max_batch_size_v,
            flush_interval_ms: u64_or(flush_interval_ms, DEFAULT_FLUSH_INTERVAL_MS),
            connect_timeout_ms: u64_or(connect_timeout_ms, DEFAULT_CONNECT_TIMEOUT_MS),
            request_timeout_ms: u64_or(request_timeout_ms, DEFAULT_REQUEST_TIMEOUT_MS),
            targets,
        }
    }
}

pub open spec fn spec_max_usize(a: usize, b: usize) -> usize {
    if a >= b {
        a
    } else {
        b
    }
}

fn max_usize(a: usize, b: usize) -> (r: usize)
    ensures
        r == spec_max_usize(a, b),
{
    if a >= b {
        a
    } else {
        b
    }
}

/// The texts of a list of strings.
pub open spec fn string_views(v: Seq<String>) -> Seq<Seq<char>> {
    v.map_values(|p: String| p@)
}

/// Comma-separated pieces of a raw value, none yet trimmed or dropped:
/// the accumulator carries the piece being read.
pub open spec fn split_acc(s: Seq<char>, cur: Seq<char>) -> Seq<Seq<char>>
    decreases s.len(),
{
    if s.len() == 0 {
        seq![cur]
    } else if s[0] == ',' {
        seq![cur] + split_acc(s.drop_first(), Seq::<char>::empty())
    } else {
        split_acc(s.drop_first(), cur.push(s[0]))
    }
}

/// Raw pieces after cleaning: each trimmed, blanks dropped.
pub open spec fn spec_clean_pieces(ps: Seq<Seq<char>>) -> Seq<Seq<char>>
    decreases ps.len(),
{
    if ps.len() == 0 {
        Seq::<Seq<char>>::empty()
    } else {
        let rest = spec_clean_pieces(ps.drop_last());
        let t = text::spec_trim(ps.last());
        if t.len() > 0 {
            rest.push(t)
        } else {
            rest
        }
    }
}

/// The cleaned comma-separated values of a raw string: split on commas,
/// trimmed, with blank pieces dropped.
pub open spec fn spec_split_csv(s: Seq<char>) -> Seq<Seq<char>> {
    spec_clean_pieces(split_acc(s, Seq::<char>::empty()))
}

/// Splits a raw comma-separated value into its cleaned pieces.
pub fn split_csv(s: &str) -> (r: Vec<String>)
    ensures
        string_views(r@) == spec_split_csv(s@),
{
    let n = s.unicode_len();
    let mut pieces: Vec<String> = Vec::new();
    let mut start: usize = 0;
    let mut i: usize = 0;
    proof {
        assert(s@.skip(0) =~= s@);
        assert(s@.subrange(0, 0) =~= Seq::<char>::empty());
    }
    while i < n
        invariant
            0 <= start <= i <= n == s@.len(),
            split_acc(s@, Seq::<char>::empty()) == string_views(pieces@) + split_acc(
                s@.skip(i as int),
                s@.subrange(start as int, i as int),
            ),
        decreases n - i,
    {
        let c = s.get_char(i);
        proof {
            let rest = s@.skip(i as int);
            assert(rest[0] == s@[i as int]);
            assert(rest.drop_first() =~= s@.skip(i as int + 1));
        }
        if c == ',' {
            let piece = s.substring_char(start, i);
            pieces.push(String::from_str(piece));
            proof {
                assert(s@.subrange(i as int + 1, i as int + 1) =~= Seq::<char>::empty());
                assert(string_views(pieces@) =~= string_views(pieces@.drop_last()).push(
                    s@.subrange(start as int, i as int),
                ));
            }
            start = i + 1;
        } else {
            proof {
                assert(s@.subrange(start as int, i as int).push(s@[i as int]) =~= s@.subrange(
                    start as int,
                    i as int + 1,
                ));
            }
        }
        i += 1;
    }
    let last_piece = s.substring_char(start, n);
    pieces.push(String::from_str(last_piece));
    let ghost raw = split_acc(s@, Seq::<char>::empty());
    proof {
        assert(s@.skip(n as int) =~= Seq::<char>::empty());
        assert(string_views(pieces@) =~= string_views(pieces@.drop_last()).push(
            s@.subrange(start as int, n as int),
        ));
        assert(raw =~= string_views(pieces@));
    }
    // trim each piece and drop the blanks
    let mut out: Vec<String> = Vec::new();
    let mut j: usize = 0;
    proof {
        assert(raw.take(0) =~= Seq::<Seq<char>>::empty());
        assert(spec_clean_pieces(raw.take(0)) =~= Seq::<Seq<char>>::empty());
        assert(string_views(out@) =~= Seq::<Seq<char>>::empty());
    }
    while j < pieces.len()
        invariant
            0 <= j <= pieces@.len(),
            raw == string_views(pieces@),
            string_views(out@) == spec_clean_pieces(raw.take(j as int)),
        decreases pieces@.len() - j,
    {
        let ghost prev = spec_clean_pieces(raw.take(j as int));
        match text::non_empty(pieces[j].as_str()) {
            Some(t) => {
                out.push(t);
            },
            None => {},
        }
        proof {
            let m = raw.take(j as int + 1);
            assert(m.drop_last() =~= raw.take(j as int));
            assert(m.last() == raw[j as int]);
            if text::spec_trim(raw[j as int]).len() > 0 {
                assert(spec_clean_pieces(m) == prev.push(text::spec_trim(raw[j as int])));
                assert(string_views(out@) =~~= prev.push(text::spec_trim(raw[j as int])));
            } else {
                assert(spec_clean_pieces(m) == prev);
            }
        }
        j += 1;
    }
    proof {
        assert(raw.take(raw.len() as int) =~= raw);
    }
    out
}

/// A target list with later repeats of the same `(endpoint, key)` pair
/// removed, first occurrences kept in order.
pub open spec fn spec_dedup(s: Seq<(Seq<char>, Seq<char>)>) -> Seq<(Seq<char>, Seq<char>)>
    decreases s.len(),
{
    if s.len() == 0 {
        s
    } else {
        let rest = spec_dedup(s.drop_last());
        if rest.contains(s.last()) {
            rest
        } else {
            rest.push(s.last())
        }
    }
}

fn contains_target(out: &Vec<MapleIngestTarget>, t: &MapleIngestTarget) -> (r: bool)
    ensures
        r == target_views(out@).contains(target_view(*t)),
{
    let mut k: usize = 0;
    while k < out.len()
        invariant
            0 <= k <= out@.len(),
            forall|m: int| 0 <= m < k ==> target_views(out@)[m] != target_view(*t),
        decreases out@.len() - k,
    {
        if text::str_eq(out[k].traces_endpoint.as_str(), t.traces_endpoint.as_str())
            && text::str_eq(out[k].ingest_key.as_str(), t.ingest_key.as_str()) {
            proof {
                assert(target_views(out@)[k as int] == target_view(*t));
            }
            return true;
        }
        k += 1;
    }
    proof {
        assert(forall|m: int| 0 <= m < out@.len() ==> target_views(out@)[m] != target_view(*t));
    }
    false
}

/// Removes duplicate targets, keeping the first occurrence of each
/// `(endpoint, key)` pair and the order of the rest.
pub fn dedup_targets(targets: Vec<MapleIngestTarget>) -> (r: Vec<MapleIngestTarget>)
    ensures
        target_views(r@) == spec_dedup(target_views(targets@)),
{
    let mut out: Vec<MapleIngestTarget> = Vec::new();
    let mut i: usize = 0;
    proof {
        assert(target_views(targets@).take(0) =~= Seq::<(Seq<char>, Seq<char>)>::empty());
        assert(target_views(out@) =~= Seq::<(Seq<char>, Seq<char>)>::empty());
    }
    while i < targets.len()
        invariant
            0 <= i <= targets@.len(),
            target_views(out@) == spec_dedup(target_views(targets@).take(i as int)),
        decreases targets@.len() - i,
    {
        let ghost tv = target_views(targets@).take(i as int + 1);
        proof {
            assert(tv.drop_last() =~= target_views(targets@).take(i as int));
            assert(tv.last() == target_view(targets@[i as int]));
        }
        let exists_already = contains_target(&out, &targets[i]);
        if !exists_already {
            let t2 = MapleIngestTarget {
                traces_endpoint: targets[i].traces_endpoint.clone(),
                ingest_key: targets[i].ingest_key.clone(),
            };
            proof {
                assert(target_view(t2) == target_view(targets@[i as int]));
            }
            out.push(t2);
            proof {
                assert(target_views(out@) =~~= target_views(out@.drop_last()).push(
                    target_view(out@.last()),
                ));
            }
        }
        proof {
            assert(target_views(out@) =~~= spec_dedup(tv));
        }
        i += 1;
    }
    proof {
        assert(target_views(targets@).take(targets@.len() as int) =~= target_views(targets@));
    }
    out
}

/// Whether exactly one half of an endpoint/key pair was given.
pub open spec fn pair_incomplete(e: Seq<char>, k: Seq<char>) -> bool {
    (e.len() > 0) != (k.len() > 0)
}

/// The targets a complete endpoint/key pair contributes: one, or none at
/// all when the pair is absent.
pub open spec fn spec_pair_targets(e: Seq<char>, k: Seq<char>) -> Seq<(Seq<char>, Seq<char>)> {
    if e.len() > 0 && k.len() > 0 {
        seq![(e, k)]
    } else {
        Seq::<(Seq<char>, Seq<char>)>::empty()
    }
}

/// Endpoints and keys paired up position by position.
pub open spec fn zip_pairs(es: Seq<Seq<char>>, ks: Seq<Seq<char>>) -> Seq<(Seq<char>, Seq<char>)> {
    Seq::new(es.len(), |i: int| (es[i], ks[i]))
}

/// The cleaned comma-separated values of an optional raw string.
pub open spec fn spec_csv_opt(o: Option<&str>) -> Seq<Seq<char>> {
    match o {
        Some(s) => spec_split_csv(s@),
        None => Seq::<Seq<char>>::empty(),
    }
}

/// Resolves the raw endpoint/key values into the delivery target list:
/// the local pair, then the hosted pair, then the comma-separated lists
/// paired up, with duplicates removed. An endpoint without its key (or a
/// key without its endpoint) is an error, as is a length mismatch between
/// the two comma-separated lists.
pub fn resolve_targets(
    local_endpoint: Option<&str>,
    local_key: Option<&str>,
    hosted_endpoint: Option<&str>,
    hosted_key: Option<&str>,
    csv_endpoints: Option<&str>,
    csv_keys: Option<&str>,
) -> (r: Result<Vec<MapleIngestTarget>, MapleConfigError>)
    ensures
        ({
            let l_e = spec_opt_trim(local_endpoint);
            let l_k = spec_opt_trim(local_key);
            let h_e = spec_opt_trim(hosted_endpoint);
            let h_k = spec_opt_trim(hosted_key);
            let es = spec_csv_opt(csv_endpoints);
            let ks = spec_csv_opt(csv_keys);
            let csv_bad = (es.len() > 0 || ks.len() > 0) && es.len() != ks.len();
            &&& (pair_incomplete(l_e, l_k) ==> (r matches Err(
                MapleConfigError::IncompletePair { prefix },
            ) && prefix@ == "SEQ_EVERRUNS_MAPLE_LOCAL"@))
            &&& (!pair_incomplete(l_e, l_k) && pair_incomplete(h_e, h_k) ==> (r matches Err(
                MapleConfigError::IncompletePair { prefix },
            ) && prefix@ == "SEQ_EVERRUNS_MAPLE_HOSTED"@))
            &&& (!pair_incomplete(l_e, l_k) && !pair_incomplete(h_e, h_k) && csv_bad
                ==> (r matches Err(
                MapleConfigError::EndpointKeyCountMismatch { endpoints, keys },
            ) && endpoints == es.len() && keys == ks.len()))
            &&& ((r is Ok) <==> (!pair_incomplete(l_e, l_k) && !pair_incomplete(h_e, h_k)
                && !csv_bad))
            &&& (r matches Ok(ts) ==> (target_views(ts@) == spec_dedup(
                spec_pair_targets(l_e, l_k) + spec_pair_targets(h_e, h_k) + zip_pairs(es, ks),
            )))
        }),
{
    let ghost l_e = spec_opt_trim(local_endpoint);
    let ghost l_k = spec_opt_trim(local_key);
    let ghost h_e = spec_opt_trim(hosted_endpoint);
    let ghost h_k = spec_opt_trim(hosted_key);
    let ghost cse = spec_csv_opt(csv_endpoints);
    let ghost csk = spec_csv_opt(csv_keys);

    let mut targets: Vec<MapleIngestTarget> = Vec::new();

    let le = opt_non_empty(local_endpoint);
    let lk = opt_non_empty(local_key);
    match (le, lk) {
        (Some(e), Some(k)) => {
            targets.push(MapleIngestTarget { traces_endpoint: e, ingest_key: k });
        },
        (None, None) => {},
        _ => {
            return Err(MapleConfigError::IncompletePair { prefix: "SEQ_EVERRUNS_MAPLE_LOCAL" });
        },
    }
    proof {
        assert(target_views(targets@) =~~= spec_pair_targets(l_e, l_k));
    }

    let he = opt_non_empty(hosted_endpoint);
    let hk = opt_non_empty(hosted_key);
    match (he, hk) {
        (Some(e), Some(k)) => {
            targets.push(MapleIngestTarget { traces_endpoint: e, ingest_key: k });
        },
        (None, None) => {},
        _ => {
            return Err(MapleConfigError::IncompletePair { prefix: "SEQ_EVERRUNS_MAPLE_HOSTED" });
        },
    }
    proof {
        assert(target_views(targets@) =~~= spec_pair_targets(l_e, l_k) + spec_pair_targets(
            h_e,
            h_k,
        ));
    }

    let es: Vec<String> = match csv_endpoints {
        Some(s) => split_csv(s),
        None => Vec::new(),
    };
    let ks: Vec<String> = match csv_keys {
        Some(s) => split_csv(s),
        None => Vec::new(),
    };
    proof {
        assert(string_views(es@) =~~= cse);
        assert(string_views(ks@) =~~= csk);
    }
    if es.len() > 0 || ks.len() > 0 {
        if es.len() != ks.len() {
            return Err(MapleConfigError::EndpointKeyCountMismatch {
                endpoints: es.len(),
                keys: ks.len(),
            });
        }
        let ghost base = spec_pair_targets(l_e, l_k) + spec_pair_targets(h_e, h_k);
        let mut i: usize = 0;
        proof {
            assert(zip_pairs(cse, csk).take(0) =~= Seq::<(Seq<char>, Seq<char>)>::empty());
            assert(target_views(targets@) =~= base + zip_pairs(cse, csk).take(0));
        }
        while i < es.len()
            invariant
                0 <= i <= es@.len() == ks@.len(),
                string_views(es@) == cse,
                string_views(ks@) == csk,
                cse.len() == es@.len(),
                csk.len() == ks@.len(),
                target_views(targets@) == base + zip_pairs(cse, csk).take(i as int),
            decreases es@.len() - i,
        {
            let t = MapleIngestTarget {
                traces_endpoint: es[i].clone(),
                ingest_key: ks[i].clone(),
            };
            proof {
                assert(cse[i as int] == string_views(es@)[i as int]);
                assert(string_views(es@)[i as int] == es@[i as int]@);
                assert(csk[i as int] == string_views(ks@)[i as int]);
                assert(string_views(ks@)[i as int] == ks@[i as int]@);
                assert(target_view(t) == (cse[i as int], csk[i as int]));
            }
            let ghost pre = targets@;
            targets.push(t);
            proof {
                let lhs = target_views(targets@);
                let rhs = base + zip_pairs(cse, csk).take(i as int + 1);
                assert(targets@ == pre.push(t));
                assert(lhs.len() == pre.len() + 1);
                assert(target_views(pre) == base + zip_pairs(cse, csk).take(i as int));
                assert(target_views(pre).len() == pre.len());
                assert(zip_pairs(cse, csk).len() == cse.len());
                assert(zip_pairs(cse, csk).take(i as int).len() == i);
                assert(zip_pairs(cse, csk).take(i as int + 1).len() == i + 1);
                assert(lhs.len() == rhs.len());
                assert forall|j: int| 0 <= j < lhs.len() implies lhs[j] == rhs[j] by {
                    assert(lhs[j] == target_view(targets@[j]));
                    if j < pre.len() {
                        assert(targets@[j] == pre[j]);
                        assert(target_views(pre)[j] == target_view(pre[j]));
                        assert(rhs[j] == (base + zip_pairs(cse, csk).take(i as int))[j]);
                    } else {
                        assert(targets@[j] == t);
                        assert(rhs[j] == zip_pairs(cse, csk)[i as int]);
                    }
                }
                assert(lhs =~= rhs);
            }
            i += 1;
        }
        proof {
            assert(zip_pairs(cse, csk).take(cse.len() as int) =~= zip_pairs(cse, csk));
        }
    } else {
        proof {
            assert(zip_pairs(cse, csk) =~= Seq::<(Seq<char>, Seq<char>)>::empty());
            assert(target_views(targets@) =~~= spec_pair_targets(l_e, l_k) + spec_pair_targets(
                h_e,
                h_k,
            ) + zip_pairs(cse, csk));
        }
    }
    Ok(dedup_targets(targets))
}

} // verus!
