//! The enumeration protocol: which remote object is read next, which
//! failures abort the whole enumeration, which are swallowed, and how each
//! connection record is assembled from what the remote reads returned.
//!
//! [`Enumeration`] is the protocol's state machine. A caller that owns the
//! transport lists the connection paths once, then, for each path that
//! [`Enumeration::next_path`] hands out, reads the path's IPv4
//! configuration and feeds the outcome to [`Enumeration::apply_ipv4`]
//! (any failure there aborts the call), then reads the path's wireless
//! configuration and feeds the outcome to [`Enumeration::apply_wireless`]
//! (a failure there only leaves the record's wireless settings absent).
//! [`connections_from_snapshot`] runs the same protocol over read
//! outcomes that are already at hand, and is proved to compute exactly
//! [`spec_enumeration`].

use vstd::prelude::*;

use crate::address::format_address;
use crate::address::spec_address_text;
use crate::model::Ipv4Config;
use crate::model::Ipv4ConfigView;
use crate::model::NetworkConnection;
use crate::model::NetworkConnectionView;
use crate::model::ServiceError;
use crate::model::WirelessSettings;
use crate::model::WirelessSettingsView;

verus! {

/// View of an optional wireless-settings value.
pub open spec fn spec_optional_wireless(w: Option<WirelessSettings>) -> Option<
    WirelessSettingsView,
> {
    match w {
        Some(x) => Some(x@),
        None => None,
    }
}

/// View of a wireless read outcome.
pub open spec fn spec_wireless_result_view(r: Result<WirelessSettings, ServiceError>) -> Result<
    WirelessSettingsView,
    Seq<char>,
> {
    match r {
        Ok(w) => Ok(w@),
        Err(e) => Err(e@),
    }
}

/// View of an IPv4 read outcome.
pub open spec fn spec_ipv4_result_view(r: Result<Ipv4Config, ServiceError>) -> Result<
    Ipv4ConfigView,
    Seq<char>,
> {
    match r {
        Ok(c) => Ok(c@),
        Err(e) => Err(e@),
    }
}

/// What a wireless read contributes to a record: its settings where the
/// read succeeded, nothing where it failed.
pub open spec fn spec_wireless_ok(r: Result<WirelessSettingsView, Seq<char>>) -> Option<
    WirelessSettingsView,
> {
    match r {
        Ok(w) => Some(w),
        Err(_) => None,
    }
}

/// Views of a sequence of path strings.
pub open spec fn string_views(s: Seq<String>) -> Seq<Seq<char>> {
    s.map_values(|p: String| p@)
}

/// Views of a sequence of connection records.
pub open spec fn conn_views(s: Seq<NetworkConnection>) -> Seq<NetworkConnectionView> {
    s.map_values(|c: NetworkConnection| c@)
}

/// Views of a sequence of IPv4 read outcomes.
pub open spec fn ipv4_result_views(s: Seq<Result<Ipv4Config, ServiceError>>) -> Seq<
    Result<Ipv4ConfigView, Seq<char>>,
> {
    s.map_values(|r: Result<Ipv4Config, ServiceError>| spec_ipv4_result_view(r))
}

/// Views of a sequence of wireless read outcomes.
pub open spec fn wireless_result_views(s: Seq<Result<WirelessSettings, ServiceError>>) -> Seq<
    Result<WirelessSettingsView, Seq<char>>,
> {
    s.map_values(|r: Result<WirelessSettings, ServiceError>| spec_wireless_result_view(r))
}

/// The record assembled for one path: the path itself as the name, the
/// gateway and nameservers as read, each address/prefix pair formatted as
/// `address/prefix`, and the wireless settings where the wireless read
/// succeeded.
pub open spec fn spec_connection_record(
    name: Seq<char>,
    ipv4: Ipv4ConfigView,
    wireless: Option<WirelessSettingsView>,
) -> NetworkConnectionView {
    NetworkConnectionView {
        name: name,
        gateway: ipv4.gateway,
        addresses: ipv4.addresses.map_values(
            |a: (Seq<char>, u32)| spec_address_text(a.0, a.1 as int),
        ),
        nameservers: ipv4.nameservers,
        wireless: wireless,
    }
}

/// Assembles one connection record from the parts the remote reads
/// returned for one path.
pub fn connection_from_parts(
    name: String,
    ipv4: Ipv4Config,
    wireless: Option<WirelessSettings>,
) -> (r: NetworkConnection)
    ensures
        r@ == spec_connection_record(name@, ipv4@, spec_optional_wireless(wireless)),
{
    let ghost gipv4 = ipv4@;
    let Ipv4Config { method: _, gateway, nameservers, addresses } = ipv4;
    let mut formatted: Vec<String> = Vec::new();
    let mut i: usize = 0;
    while i < addresses.len()
        invariant
            i <= addresses@.len(),
            gipv4.addresses == addresses.deep_view(),
            formatted@.len() == i,
            forall|j: int|
                0 <= j < i ==> (#[trigger] formatted@[j])@ == spec_address_text(
                    addresses@[j].0@,
                    addresses@[j].1 as int,
                ),
        decreases addresses@.len() - i,
    {
        let pair = &addresses[i];
        let s = format_address(pair.0.as_str(), pair.1);
        formatted.push(s);
        i = i + 1;
    }
    let r = NetworkConnection { name, gateway, addresses: formatted, nameservers, wireless };
    proof {
        let target = spec_connection_record(name@, gipv4, spec_optional_wireless(wireless));
        assert forall|j: int| 0 <= j < r@.addresses.len() implies r@.addresses[j]
            == target.addresses[j] by {
            assert(r@.addresses[j] == formatted@[j]@);
            assert(gipv4.addresses[j] == (addresses@[j].0@, addresses@[j].1));
        }
        assert(r@.addresses =~= target.addresses);
        assert(r@ =~= target);
    }
    r
}

/// One in-progress enumeration of the remote connection list.
///
/// `paths` is the point-in-time snapshot of the remote object paths;
/// `records` holds one assembled record per path already processed;
/// `pending` holds the IPv4 configuration of the path whose wireless
/// read is still outstanding.
pub struct Enumeration {
    pub paths: Vec<String>,
    pub index: usize,
    pub pending: Option<Ipv4Config>,
    pub records: Vec<NetworkConnection>,
}

impl Enumeration {
    /// Well-formedness: one record per processed path, in path order,
    /// each named after its path.
    pub open spec fn wf(self) -> bool {
        &&& self.index <= self.paths@.len()
        &&& self.records@.len() == self.index
        &&& (self.pending is Some ==> self.index < self.paths@.len())
        &&& forall|i: int|
            0 <= i < self.records@.len() ==> (#[trigger] self.records@[i])@.name
                == self.paths@[i]@
    }

    /// Starts an enumeration over the paths the remote service listed.
    pub fn new(paths: Vec<String>) -> (r: Enumeration)
        ensures
            r.wf(),
            r.paths == paths,
            r.index == 0,
            r.pending is None,
            r.records@ == Seq::<NetworkConnection>::empty(),
    {
        let r = Enumeration { paths, index: 0, pending: None, records: Vec::new() };
        proof {
            assert(r.records@ =~= Seq::<NetworkConnection>::empty());
        }
        r
    }

    /// The path whose reads come next, or nothing once every path has
    /// been resolved.
    pub fn next_path(&self) -> (r: Option<String>)
        requires
            self.wf(),
        ensures
            match r {
                Some(p) => self.index < self.paths@.len() && p@ == self.paths@[
                    self.index as int
                ]@,
                None => self.index == self.paths@.len(),
            },
    {
        if self.index < self.paths.len() {
            Some(self.paths[self.index].clone())
        } else {
            None
        }
    }

    /// Applies the outcome of the current path's IPv4 read. A failure
    /// here is a hard failure: it is handed back unchanged and the
    /// enumeration must be abandoned; no record is produced for any
    /// path. A success is held until the wireless outcome arrives.
    pub fn apply_ipv4(&mut self, r: Result<Ipv4Config, ServiceError>) -> (out: Result<
        (),
        ServiceError,
    >)
        requires
            old(self).wf(),
            old(self).pending is None,
            old(self).index < old(self).paths@.len(),
        ensures
            final(self).wf(),
            final(self).paths == old(self).paths,
            final(self).index == old(self).index,
            final(self).records == old(self).records,
            match r {
                Ok(cfg) => out is Ok && final(self).pending == Some(cfg),
                Err(e) => out == Err::<(), ServiceError>(e) && final(self).pending is None,
            },
    {
        match r {
            Ok(cfg) => {
                self.pending = Some(cfg);
                Ok(())
            },
            Err(e) => Err(e),
        }
    }

    /// Applies the outcome of the current path's wireless read and
    /// completes the path's record. A failure here is a soft failure:
    /// it is swallowed, and the record's wireless settings are simply
    /// absent. The record is appended in path order.
    pub fn apply_wireless(&mut self, r: Result<WirelessSettings, ServiceError>)
        requires
            old(self).wf(),
            old(self).pending is Some,
        ensures
            final(self).wf(),
            final(self).paths == old(self).paths,
            final(self).pending is None,
            final(self).index == old(self).index + 1,
            conn_views(final(self).records@) == conn_views(old(self).records@).push(
                spec_connection_record(
                    old(self).paths@[old(self).index as int]@,
                    old(self).pending->Some_0@,
                    spec_wireless_ok(spec_wireless_result_view(r)),
                ),
            ),
    {
        let n: usize = self.paths.len();
        let cfg = self.pending.take().unwrap();
        let name = self.paths[self.index].clone();
        let wireless = match r {
            Ok(w) => Some(w),
            Err(_) => None,
        };
        let rec = connection_from_parts(name, cfg, wireless);
        self.records.push(rec);
        proof {
            assert(self.index < n);
        }
        self.index = self.index + 1;
        proof {
            let pushed = spec_connection_record(
                old(self).paths@[old(self).index as int]@,
                old(self).pending->Some_0@,
                spec_wireless_ok(spec_wireless_result_view(r)),
            );
            assert(rec@ == pushed);
            assert forall|i: int| 0 <= i < self.records@.len() implies conn_views(self.records@)[i]
                == conn_views(old(self).records@).push(pushed)[i] by {
                assert(conn_views(self.records@)[i] == self.records@[i]@);
                if i < old(self).records@.len() {
                    assert(self.records@[i] == old(self).records@[i]);
                }
            }
            assert(conn_views(self.records@) =~= conn_views(old(self).records@).push(pushed));
            assert forall|i: int| 0 <= i < self.records@.len() implies (
            #[trigger] self.records@[i])@.name == self.paths@[i]@ by {
                if i < old(self).records@.len() {
                    assert(self.records@[i] == old(self).records@[i]);
                }
            }
        }
    }

    /// Whether every listed path has been resolved.
    pub fn done(&self) -> (r: bool)
        requires
            self.wf(),
        ensures
            r == (self.index == self.paths@.len()),
    {
        self.index == self.paths.len()
    }

    /// Hands out the completed records: one per listed path, in the
    /// order the remote service listed the paths, each named after its
    /// path.
    pub fn finish(self) -> (r: Vec<NetworkConnection>)
        requires
            self.wf(),
            self.index == self.paths@.len(),
        ensures
            r == self.records,
            r@.len() == self.paths@.len(),
            forall|i: int|
                0 <= i < r@.len() ==> (#[trigger] r@[i])@.name == self.paths@[i]@,
    {
        self.records
    }
}

/// Outcome of an enumeration from step `i` on, with `acc` the records
/// already assembled for the first `i` paths: the first IPv4 failure
/// from step `i` on is the whole outcome; otherwise one record per path
/// is appended, its wireless settings absent where the wireless read
/// failed.
pub open spec fn spec_enumeration_step(
    paths: Seq<Seq<char>>,
    ipv4s: Seq<Result<Ipv4ConfigView, Seq<char>>>,
    wireless: Seq<Result<WirelessSettingsView, Seq<char>>>,
    i: int,
    acc: Seq<NetworkConnectionView>,
) -> Result<Seq<NetworkConnectionView>, Seq<char>>
    decreases paths.len() - i,
{
    if i < 0 || i >= paths.len() {
        Ok(acc)
    } else {
        match ipv4s[i] {
            Err(e) => Err(e),
            Ok(cfg) => spec_enumeration_step(
                paths,
                ipv4s,
                wireless,
                i + 1,
                acc.push(spec_connection_record(paths[i], cfg, spec_wireless_ok(wireless[i]))),
            ),
        }
    }
}

/// Outcome of one whole enumeration of a remote snapshot: the paths as
/// listed and, per path, the IPv4 and wireless read outcomes.
pub open spec fn spec_enumeration(
    paths: Seq<Seq<char>>,
    ipv4s: Seq<Result<Ipv4ConfigView, Seq<char>>>,
    wireless: Seq<Result<WirelessSettingsView, Seq<char>>>,
) -> Result<Seq<NetworkConnectionView>, Seq<char>> {
    spec_enumeration_step(paths, ipv4s, wireless, 0, Seq::<NetworkConnectionView>::empty())
}

/// View of a whole enumeration's result.
pub open spec fn spec_connections_result_view(r: Result<Vec<NetworkConnection>, ServiceError>) -> Result<
    Seq<NetworkConnectionView>,
    Seq<char>,
> {
    match r {
        Ok(v) => Ok(conn_views(v@)),
        Err(e) => Err(e@),
    }
}

/// Runs one whole enumeration over read outcomes that are already at
/// hand: per listed path, the outcome of its IPv4 read and of its
/// wireless read. Returns `Ok` exactly when every IPv4 read succeeded;
/// the first IPv4 failure is returned as the whole outcome; a wireless
/// failure only leaves that record's wireless settings absent.
#[verifier::loop_isolation(false)]
pub fn connections_from_snapshot(
    paths: Vec<String>,
    ipv4s: Vec<Result<Ipv4Config, ServiceError>>,
    wireless: Vec<Result<WirelessSettings, ServiceError>>,
) -> (out: Result<Vec<NetworkConnection>, ServiceError>)
    requires
        ipv4s@.len() == paths@.len(),
        wireless@.len() == paths@.len(),
    ensures
        spec_connections_result_view(out) == spec_enumeration(
            string_views(paths@),
            ipv4_result_views(ipv4s@),
            wireless_result_views(wireless@),
        ),
        out is Ok <==> (forall|k: int| 0 <= k < paths@.len() ==> ipv4s@[k] is Ok),
        out is Ok ==> out->Ok_0@.len() == paths@.len(),
        out is Ok ==> forall|k: int|
            0 <= k < paths@.len() ==> (#[trigger] out->Ok_0@[k])@.name == paths@[k]@,
{
    let ghost opaths = string_views(paths@);
    let ghost oipv4 = ipv4_result_views(ipv4s@);
    let ghost ow = wireless_result_views(wireless@);
    let ghost oexec4 = ipv4s@;
    let mut q = Enumeration::new(paths);
    let mut rest4 = ipv4s;
    let mut restw = wireless;
    proof {
        assert(ipv4_result_views(rest4@) =~= oipv4.skip(0));
        assert(wireless_result_views(restw@) =~= ow.skip(0));
        assert(conn_views(q.records@) =~= Seq::<NetworkConnectionView>::empty());
    }
    while q.index < q.paths.len()
        invariant
            q.wf(),
            q.pending is None,
            string_views(q.paths@) == opaths,
            opaths.len() == q.paths@.len(),
            oipv4.len() == opaths.len(),
            ow.len() == opaths.len(),
            oipv4 == ipv4_result_views(oexec4),
            oexec4.len() == opaths.len(),
            ipv4_result_views(rest4@) == oipv4.skip(q.index as int),
            wireless_result_views(restw@) == ow.skip(q.index as int),
            rest4@.len() == oipv4.len() - q.index,
            restw@.len() == ow.len() - q.index,
            forall|j: int| 0 <= j < q.index ==> #[trigger] oipv4[j] is Ok,
            spec_enumeration(opaths, oipv4, ow) == spec_enumeration_step(
                opaths,
                oipv4,
                ow,
                q.index as int,
                conn_views(q.records@),
            ),
        decreases q.paths@.len() - q.index,
    {
        let ghost i: int = q.index as int;
        let ghost prev4 = rest4@;
        let r4 = rest4.remove(0);
        proof {
            assert(spec_ipv4_result_view(r4) == oipv4.skip(i)[0]);
            assert(oipv4.skip(i)[0] == oipv4[i]);
            assert forall|j: int| 0 <= j < rest4@.len() implies ipv4_result_views(rest4@)[j]
                == oipv4.skip(i + 1)[j] by {
                assert(rest4@[j] == prev4[j + 1]);
                assert(ipv4_result_views(prev4)[j + 1] == oipv4.skip(i)[j + 1]);
            }
            assert(ipv4_result_views(rest4@) =~= oipv4.skip(i + 1));
        }
        match q.apply_ipv4(r4) {
            Err(e) => {
                proof {
                    assert(oipv4[i] == Err::<Ipv4ConfigView, Seq<char>>(e@));
                    assert(spec_enumeration_step(
                        opaths,
                        oipv4,
                        ow,
                        i,
                        conn_views(q.records@),
                    ) == Err::<Seq<NetworkConnectionView>, Seq<char>>(e@));
                    assert(ipv4_result_views(oexec4)[i] == oipv4[i]);
                    assert(oexec4[i] is Err);
                }
                return Err(e);
            },
            Ok(_unit) => {},
        }
        let ghost prevw = restw@;
        let rw = restw.remove(0);
        let ghost prevrec = conn_views(q.records@);
        q.apply_wireless(rw);
        proof {
            assert(spec_wireless_result_view(rw) == ow.skip(i)[0]);
            assert(ow.skip(i)[0] == ow[i]);
            assert forall|j: int| 0 <= j < restw@.len() implies wireless_result_views(restw@)[j]
                == ow.skip(i + 1)[j] by {
                assert(restw@[j] == prevw[j + 1]);
                assert(wireless_result_views(prevw)[j + 1] == ow.skip(i)[j + 1]);
            }
            assert(wireless_result_views(restw@) =~= ow.skip(i + 1));
            assert(opaths[i] == q.paths@[i]@);
            assert(oipv4[i] == Ok::<Ipv4ConfigView, Seq<char>>(r4->Ok_0@));
            assert(conn_views(q.records@) == prevrec.push(
                spec_connection_record(opaths[i], oipv4[i]->Ok_0, spec_wireless_ok(ow[i])),
            ));
            assert(spec_enumeration_step(opaths, oipv4, ow, i, prevrec)
                == spec_enumeration_step(opaths, oipv4, ow, i + 1, conn_views(q.records@)));
            assert(ipv4_result_views(oexec4)[i] == oipv4[i]);
        }
    }
    proof {
        assert(q.index == q.paths@.len());
        assert(spec_enumeration(opaths, oipv4, ow) == Ok::<
            Seq<NetworkConnectionView>,
            Seq<char>,
        >(conn_views(q.records@)));
        assert forall|k: int| 0 <= k < opaths.len() implies #[trigger] oexec4[k] is Ok by {
            assert(ipv4_result_views(oexec4)[k] == oipv4[k]);
        }
    }
    let ghost qpaths = q.paths@;
    let recs = q.finish();
    proof {
        assert forall|k: int| 0 <= k < paths@.len() implies (#[trigger] recs@[k])@.name
            == paths@[k]@ by {
            assert(recs@[k]@.name == qpaths[k]@);
            assert(string_views(qpaths)[k] == opaths[k]);
            assert(opaths[k] == paths@[k]@);
        }
    }
    Ok(recs)
}

proof fn lemma_step_success(
    paths: Seq<Seq<char>>,
    ipv4s: Seq<Result<Ipv4ConfigView, Seq<char>>>,
    wireless: Seq<Result<WirelessSettingsView, Seq<char>>>,
    i: int,
    acc: Seq<NetworkConnectionView>,
)
    requires
        ipv4s.len() == paths.len(),
        wireless.len() == paths.len(),
        0 <= i <= paths.len(),
        forall|k: int| i <= k < paths.len() ==> #[trigger] ipv4s[k] is Ok,
    ensures
        ({
            let r = spec_enumeration_step(paths, ipv4s, wireless, i, acc);
            &&& r is Ok
            &&& r->Ok_0.len() == acc.len() + paths.len() - i
            &&& forall|j: int| 0 <= j < acc.len() ==> #[trigger] r->Ok_0[j] == acc[j]
            &&& forall|k: int|
                i <= k < paths.len() ==> #[trigger] r->Ok_0[acc.len() + (k - i)]
                    == spec_connection_record(
                    paths[k],
                    ipv4s[k]->Ok_0,
                    spec_wireless_ok(wireless[k]),
                )
        }),
    decreases paths.len() - i,
{
    if i < paths.len() {
        let rec = spec_connection_record(paths[i], ipv4s[i]->Ok_0, spec_wireless_ok(wireless[i]));
        let acc2 = acc.push(rec);
        lemma_step_success(paths, ipv4s, wireless, i + 1, acc2);
        let r = spec_enumeration_step(paths, ipv4s, wireless, i, acc);
        assert(r == spec_enumeration_step(paths, ipv4s, wireless, i + 1, acc2));
        assert forall|j: int| 0 <= j < acc.len() implies #[trigger] r->Ok_0[j] == acc[j] by {
            assert(r->Ok_0[j] == acc2[j]);
        }
        assert forall|k: int| i <= k < paths.len() implies #[trigger] r->Ok_0[acc.len() + (k - i)]
            == spec_connection_record(
            paths[k],
            ipv4s[k]->Ok_0,
            spec_wireless_ok(wireless[k]),
        ) by {
            if k == i {
                assert(r->Ok_0[acc.len() as int] == acc2[acc.len() as int]);
                assert(acc2[acc.len() as int] == rec);
            } else {
                assert(r->Ok_0[acc2.len() + (k - (i + 1))] == spec_connection_record(
                    paths[k],
                    ipv4s[k]->Ok_0,
                    spec_wireless_ok(wireless[k]),
                ));
                assert(acc2.len() + (k - (i + 1)) == acc.len() + (k - i));
            }
        }
    }
}

/// For N listed paths, an enumeration in which every IPv4 read succeeds
/// returns exactly N records, in path order: record `k` is assembled
/// from path `k` alone — named after it, carrying its IPv4 data, and
/// carrying its wireless settings exactly when its wireless read
/// succeeded (a failed wireless read never fails the call).
pub proof fn lemma_enumeration_success(
    paths: Seq<Seq<char>>,
    ipv4s: Seq<Result<Ipv4ConfigView, Seq<char>>>,
    wireless: Seq<Result<WirelessSettingsView, Seq<char>>>,
)
    requires
        ipv4s.len() == paths.len(),
        wireless.len() == paths.len(),
        forall|k: int| 0 <= k < paths.len() ==> #[trigger] ipv4s[k] is Ok,
    ensures
        ({
            let r = spec_enumeration(paths, ipv4s, wireless);
            &&& r is Ok
            &&& r->Ok_0.len() == paths.len()
            &&& forall|k: int|
                0 <= k < paths.len() ==> #[trigger] r->Ok_0[k] == spec_connection_record(
                    paths[k],
                    ipv4s[k]->Ok_0,
                    spec_wireless_ok(wireless[k]),
                )
            &&& forall|k: int| 0 <= k < paths.len() ==> (#[trigger] r->Ok_0[k]).name == paths[k]
            &&& forall|k: int|
                0 <= k < paths.len() ==> (#[trigger] r->Ok_0[k]).wireless == spec_wireless_ok(
                    wireless[k],
                )
        }),
{
    let acc0 = Seq::<NetworkConnectionView>::empty();
    lemma_step_success(paths, ipv4s, wireless, 0, acc0);
    let r = spec_enumeration_step(paths, ipv4s, wireless, 0, acc0);
    assert forall|k: int| 0 <= k < paths.len() implies #[trigger] r->Ok_0[k]
        == spec_connection_record(paths[k], ipv4s[k]->Ok_0, spec_wireless_ok(wireless[k])) by {
        assert(r->Ok_0[acc0.len() + (k - 0)] == spec_connection_record(
            paths[k],
            ipv4s[k]->Ok_0,
            spec_wireless_ok(wireless[k]),
        ));
        assert(acc0.len() + (k - 0) == k);
    }
}

proof fn lemma_step_failure(
    paths: Seq<Seq<char>>,
    ipv4s: Seq<Result<Ipv4ConfigView, Seq<char>>>,
    wireless: Seq<Result<WirelessSettingsView, Seq<char>>>,
    i: int,
    acc: Seq<NetworkConnectionView>,
    k: int,
)
    requires
        ipv4s.len() == paths.len(),
        wireless.len() == paths.len(),
        0 <= i <= k < paths.len(),
        ipv4s[k] is Err,
        forall|j: int| i <= j < k ==> #[trigger] ipv4s[j] is Ok,
    ensures
        spec_enumeration_step(paths, ipv4s, wireless, i, acc) == Err::<
            Seq<NetworkConnectionView>,
            Seq<char>,
        >(ipv4s[k]->Err_0),
    decreases k - i,
{
    if i < k {
        let rec = spec_connection_record(paths[i], ipv4s[i]->Ok_0, spec_wireless_ok(wireless[i]));
        lemma_step_failure(paths, ipv4s, wireless, i + 1, acc.push(rec), k);
    }
}

/// The first failing IPv4 read aborts the whole enumeration: the
/// outcome is exactly that failure's error and no records at all, even
/// where every other path would have succeeded.
pub proof fn lemma_enumeration_first_failure(
    paths: Seq<Seq<char>>,
    ipv4s: Seq<Result<Ipv4ConfigView, Seq<char>>>,
    wireless: Seq<Result<WirelessSettingsView, Seq<char>>>,
    k: int,
)
    requires
        ipv4s.len() == paths.len(),
        wireless.len() == paths.len(),
        0 <= k < paths.len(),
        ipv4s[k] is Err,
        forall|j: int| 0 <= j < k ==> #[trigger] ipv4s[j] is Ok,
    ensures
        spec_enumeration(paths, ipv4s, wireless) == Err::<
            Seq<NetworkConnectionView>,
            Seq<char>,
        >(ipv4s[k]->Err_0),
{
    lemma_step_failure(paths, ipv4s, wireless, 0, Seq::<NetworkConnectionView>::empty(), k);
}

/// An empty path list enumerates to an empty record list, with no
/// per-path outcome ever consulted.
pub proof fn lemma_enumeration_empty(
    ipv4s: Seq<Result<Ipv4ConfigView, Seq<char>>>,
    wireless: Seq<Result<WirelessSettingsView, Seq<char>>>,
)
    ensures
        spec_enumeration(Seq::<Seq<char>>::empty(), ipv4s, wireless) == Ok::<
            Seq<NetworkConnectionView>,
            Seq<char>,
        >(Seq::<NetworkConnectionView>::empty()),
{
}

/// The enumeration outcome is a function of the remote snapshot alone:
/// two enumerations of identical snapshots yield identical results.
pub proof fn lemma_enumeration_idempotent(
    paths1: Seq<Seq<char>>,
    ipv4s1: Seq<Result<Ipv4ConfigView, Seq<char>>>,
    wireless1: Seq<Result<WirelessSettingsView, Seq<char>>>,
    paths2: Seq<Seq<char>>,
    ipv4s2: Seq<Result<Ipv4ConfigView, Seq<char>>>,
    wireless2: Seq<Result<WirelessSettingsView, Seq<char>>>,
)
    requires
        paths1 == paths2,
        ipv4s1 == ipv4s2,
        wireless1 == wireless2,
    ensures
        spec_enumeration(paths1, ipv4s1, wireless1) == spec_enumeration(
            paths2,
            ipv4s2,
            wireless2,
        ),
{
}

} // verus!
