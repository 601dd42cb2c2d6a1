//! The engine-facing model: what the system reads from container listings,
//! the label scope every operation must respect, and the classification of
//! creation outcomes.
//!
//! The process talks to the container engine over the network; this module
//! holds the data those calls exchange as plain values, builds the queries,
//! and decides what each outcome means. The calls themselves live outside the
//! verified library.

use vstd::multiset::Multiset;
use vstd::prelude::*;
use vstd::string::StringExecFns;

verus! {

/// A means of connecting to the container engine daemon.
#[derive(Clone, Copy, Debug, PartialEq, Eq, Structural)]
pub enum Transport {
    Http,
    Tls,
    Socket,
}

/// The fields of a listed container that the system reads. Every field is
/// optional on the wire; absent essentials make the record skippable, never
/// an error.
pub struct ContainerBrief {
    /// Human names, each prefixed with `/` by the engine.
    pub names: Option<Vec<String>>,
    /// Creation timestamp, integer seconds.
    pub created: Option<i64>,
    /// Engine-reported status string.
    pub status: Option<String>,
}

/// The fields of an inspected container that the cleaner reads.
pub struct InspectBrief {
    /// The container's name, prefixed with `/` by the engine.
    pub name: Option<String>,
    /// When the container exited, as an RFC 3339 timestamp string; absent
    /// when the engine reported no state or no finish time.
    pub finished_at: Option<String>,
}

/// The key of the grouping label that marks a container as owned by this
/// system: the product name qualified with `.namespace`.
pub open spec fn spec_label_key() -> Seq<char> {
    "jobd.namespace"@
}

/// The grouping-label key as a string.
pub fn label_key() -> (r: &'static str)
    ensures
        r@ == spec_label_key(),
{
    "jobd.namespace"
}

/// The `label` filter value scoping a listing to this namespace:
/// `<key>=<namespace>`.
pub open spec fn spec_label_filter(namespace: Seq<char>) -> Seq<char> {
    spec_label_key() + "="@ + namespace
}

/// Build the label filter for a namespace.
pub fn label_filter(namespace: &str) -> (r: String)
    ensures
        r@ == spec_label_filter(namespace@),
{
    let mut s = String::from_str(label_key());
    s.append("=");
    s.append(namespace);
    s
}

/// The `name` filter pattern matching exactly one container name: `^/<name>$`.
pub open spec fn spec_name_pattern(name: Seq<char>) -> Seq<char> {
    "^/"@ + name + "$"@
}

/// Build the name filter pattern for a single name.
pub fn name_pattern(name: &str) -> (r: String)
    ensures
        r@ == spec_name_pattern(name@),
{
    let mut s = String::from_str("^/");
    s.append(name);
    s.append("$");
    s
}

/// A container listing request: which containers to ask the engine for.
pub struct ListQuery {
    /// List stopped containers too, not only running ones.
    pub all: bool,
    /// Cap on the number of results.
    pub limit: Option<i64>,
    /// A `name` filter pattern, when listing a single container.
    pub name_pattern: Option<String>,
    /// `status` filter values, when listing by state.
    pub statuses: Vec<String>,
    /// The grouping-label filter; every query carries one.
    pub label: String,
}

/// A query is scoped to a namespace when its label filter names exactly that
/// namespace. Every container the system observes comes from a scoped query:
/// containers without the grouping label are invisible to it.
pub open spec fn query_scoped(q: ListQuery, namespace: Seq<char>) -> bool {
    q.label@ == spec_label_filter(namespace)
}

/// The query behind fetching one container by name: a `^/<name>$` name
/// filter, the namespace label filter, and a result cap of one.
pub fn query_by_name(name: &str, namespace: &str) -> (q: ListQuery)
    ensures
        query_scoped(q, namespace@),
        q.all,
        q.limit == Some(1i64),
        q.name_pattern matches Some(p) && p@ == spec_name_pattern(name@),
        q.statuses@ =~= Seq::<String>::empty(),
{
    ListQuery {
        all: true,
        limit: Some(1),
        name_pattern: Some(name_pattern(name)),
        statuses: Vec::new(),
        label: label_filter(namespace),
    }
}

/// The query behind counting active containers: states `restarting` and
/// `running`, scoped to the namespace, no cap.
pub fn query_active(namespace: &str) -> (q: ListQuery)
    ensures
        query_scoped(q, namespace@),
        q.all,
        q.limit is None,
        q.name_pattern is None,
        q.statuses@.len() == 2,
        q.statuses@[0]@ == "restarting"@,
        q.statuses@[1]@ == "running"@,
{
    let mut statuses: Vec<String> = Vec::new();
    statuses.push(String::from_str("restarting"));
    statuses.push(String::from_str("running"));
    ListQuery {
        all: true,
        limit: None,
        name_pattern: None,
        statuses,
        label: label_filter(namespace),
    }
}

/// The query behind listing containers in one state (`created` for the
/// scheduler, `exited` for the cleaner), scoped to the namespace.
pub fn query_by_status(status: &str, namespace: &str) -> (q: ListQuery)
    ensures
        query_scoped(q, namespace@),
        q.all,
        q.limit is None,
        q.name_pattern is None,
        q.statuses@.len() == 1,
        q.statuses@[0]@ == status@,
{
    let mut statuses: Vec<String> = Vec::new();
    statuses.push(status.to_owned());
    ListQuery {
        all: true,
        limit: None,
        name_pattern: None,
        statuses,
        label: label_filter(namespace),
    }
}

/// The job name a listed container is addressed by: its first listed name,
/// with the engine's leading `/` stripped; absent when the record carries no
/// usable name (such a record is skipped, never an error).
pub open spec fn spec_first_name(c: ContainerBrief) -> Option<Seq<char>> {
    match c.names {
        Option::Some(ns) => if ns@.len() > 0 {
            Option::Some(crate::text::spec_strip_leading_slash(ns@[0]@))
        } else {
            Option::None
        },
        Option::None => Option::None,
    }
}

/// The job names of the records that carry one, in listing order.
pub open spec fn spec_names_of(s: Seq<ContainerBrief>) -> Seq<Seq<char>>
    decreases s.len(),
{
    if s.len() == 0 {
        Seq::empty()
    } else {
        let rest = spec_names_of(s.drop_first());
        match spec_first_name(s.first()) {
            Option::Some(n) => seq![n] + rest,
            Option::None => rest,
        }
    }
}

/// Appending a record extends the name list by that record's name, if any.
pub proof fn lemma_names_of_snoc(s: Seq<ContainerBrief>, c: ContainerBrief)
    ensures
        spec_names_of(s.push(c)) == spec_names_of(s) + (match spec_first_name(c) {
            Option::Some(n) => seq![n],
            Option::None => Seq::<Seq<char>>::empty(),
        }),
    decreases s.len(),
{
    let tail = match spec_first_name(c) {
        Option::Some(n) => seq![n],
        Option::None => Seq::<Seq<char>>::empty(),
    };
    if s.len() == 0 {
        reveal_with_fuel(spec_names_of, 2);
        assert(s.push(c).first() == c);
        assert(s.push(c).drop_first() =~= Seq::<ContainerBrief>::empty());
        assert(spec_names_of(s.push(c)) =~= spec_names_of(s) + tail);
    } else {
        assert(s.push(c).first() == s.first());
        assert(s.push(c).drop_first() =~= s.drop_first().push(c));
        lemma_names_of_snoc(s.drop_first(), c);
        assert(spec_names_of(s.push(c).drop_first()) == spec_names_of(s.drop_first()) + tail);
        match spec_first_name(s.first()) {
            Option::Some(n) => {
                assert(spec_names_of(s.push(c)) == seq![n] + (spec_names_of(s.drop_first())
                    + tail));
                assert(spec_names_of(s) == seq![n] + spec_names_of(s.drop_first()));
                assert(seq![n] + (spec_names_of(s.drop_first()) + tail) =~= (seq![n]
                    + spec_names_of(s.drop_first())) + tail);
            },
            Option::None => {
                assert(spec_names_of(s.push(c)) == spec_names_of(s.drop_first()) + tail);
                assert(spec_names_of(s) == spec_names_of(s.drop_first()));
            },
        }
        assert(spec_names_of(s.push(c)) =~= spec_names_of(s) + tail);
    }
}

/// A record's job name, as `spec_first_name` has it.
pub fn first_name(c: &ContainerBrief) -> (r: Option<String>)
    ensures
        match spec_first_name(*c) {
            Option::Some(n) => r matches Some(s) && s@ == n,
            Option::None => r is None,
        },
{
    match &c.names {
        Option::Some(ns) => {
            if ns.len() > 0 {
                Some(crate::text::strip_leading_slash(ns[0].as_str()))
            } else {
                None
            }
        },
        Option::None => None,
    }
}

/// The job names of all listed records that carry one, in listing order:
/// what the cleaner inspects, and what the scheduler counts pending.
pub fn container_names(list: &Vec<ContainerBrief>) -> (names: Vec<String>)
    ensures
        names.deep_view() == spec_names_of(list@),
{
    let mut names: Vec<String> = Vec::new();
    let mut i: usize = 0;
    while i < list.len()
        invariant
            i <= list@.len(),
            names.deep_view() == spec_names_of(list@.take(i as int)),
        decreases list@.len() - i,
    {
        let ghost prev = names.deep_view();
        match first_name(&list[i]) {
            Some(n) => {
                let ghost nv = n@;
                names.push(n);
                proof {
                    assert(names.deep_view() =~= prev + seq![nv]);
                }
            },
            None => (),
        }
        proof {
            assert(list@.take(i as int + 1).drop_last() =~= list@.take(i as int));
            assert(list@.take(i as int + 1) =~= list@.take(i as int).push(list@[i as int]));
            lemma_names_of_snoc(list@.take(i as int), list@[i as int]);
            assert(names.deep_view() =~= spec_names_of(list@.take(i as int + 1)));
        }
        i = i + 1;
    }
    proof {
        assert(list@.take(list@.len() as int) =~= list@);
    }
    names
}

/// What the engine answered to a creation call, reduced to plain values: a
/// failure carries the HTTP status the engine server reported, if any, and a
/// rendered message.
pub struct EngineFailure {
    /// The engine server's HTTP status, when the failure was a server reply.
    pub server_status: Option<u16>,
    /// The failure rendered as text.
    pub message: String,
}

/// What a creation attempt means for the caller.
pub enum CreateReply {
    /// The engine created the container.
    Created,
    /// The engine reported a name conflict: the container already exists.
    PreExisting,
    /// Any other engine failure, surfaced.
    Failed(String),
}

/// Classify a creation outcome: a name-conflict reply (HTTP 409) from the
/// engine means the container pre-exists and is no error; everything else is
/// surfaced.
pub fn classify_create(outcome: Result<(), EngineFailure>) -> (r: CreateReply)
    ensures
        match outcome {
            Ok(()) => r is Created,
            Err(f) => if f.server_status == Some(409u16) {
                r is PreExisting
            } else {
                r matches CreateReply::Failed(m) && m == f.message
            },
        },
{
    match outcome {
        Ok(()) => CreateReply::Created,
        Err(f) => {
            let conflict = match f.server_status {
                Some(code) => code == 409,
                None => false,
            };
            if conflict {
                CreateReply::PreExisting
            } else {
                CreateReply::Failed(f.message)
            }
        },
    }
}

/// The engine's container store reduced to what creation and retrieval
/// observe of it: which names exist. The engine owns this state; the system
/// only ever reads it through the operations modelled here.
pub struct EngineModel {
    /// The names of the containers the engine holds.
    pub names: Set<Seq<char>>,
}

/// What creating `name` does to the engine: a fresh name is added and the
/// creation accepted; an existing name leaves the store unchanged and the
/// creation reports a conflict.
pub open spec fn model_create(e: EngineModel, name: Seq<char>) -> (EngineModel, bool) {
    if e.names.contains(name) {
        (e, false)
    } else {
        (EngineModel { names: e.names.insert(name) }, true)
    }
}

/// Whether fetching `name` finds a container.
pub open spec fn model_found(e: EngineModel, name: Seq<char>) -> bool {
    e.names.contains(name)
}

/// Ordering on creation stamps: a missing stamp sorts first, as the standard
/// ordering on optional values has it.
pub open spec fn created_le(a: Option<i64>, b: Option<i64>) -> bool {
    match (a, b) {
        (Option::None, _) => true,
        (Option::Some(_), Option::None) => false,
        (Option::Some(x), Option::Some(y)) => x <= y,
    }
}

/// A listing ordered oldest to newest by creation stamp.
pub open spec fn sorted_by_created(s: Seq<ContainerBrief>) -> bool {
    forall|i: int, j: int|
        0 <= i < j < s.len() ==> created_le(#[trigger] s[i].created, #[trigger] s[j].created)
}

/// The ordering is total: two stamps always compare one way or the other.
proof fn lemma_created_le_total(a: Option<i64>, b: Option<i64>)
    ensures
        created_le(a, b) || created_le(b, a),
{
}

/// The ordering is transitive.
proof fn lemma_created_le_trans(a: Option<i64>, b: Option<i64>, c: Option<i64>)
    ensures
        created_le(a, b) && created_le(b, c) ==> created_le(a, c),
{
}

/// Compare two creation stamps.
fn created_le_exec(a: &Option<i64>, b: &Option<i64>) -> (r: bool)
    ensures
        r == created_le(*a, *b),
{
    match (a, b) {
        (Option::None, _) => true,
        (Option::Some(_), Option::None) => false,
        (Option::Some(x), Option::Some(y)) => *x <= *y,
    }
}

/// Sort a listing oldest to newest by creation stamp, keeping exactly the
/// given records. Listings are handed to the scheduler and the cleaner in
/// this order, which makes admission first-in-first-out.
pub fn sort_by_created(list: Vec<ContainerBrief>) -> (r: Vec<ContainerBrief>)
    ensures
        sorted_by_created(r@),
        r@.to_multiset() == list@.to_multiset(),
{
    broadcast use vstd::seq_lib::group_to_multiset_ensures;
    broadcast use vstd::multiset::group_multiset_axioms;

    let ghost orig = list@;
    let mut rest = list;
    let mut out: Vec<ContainerBrief> = Vec::new();
    proof {
        assert(out@.to_multiset() =~= Multiset::<ContainerBrief>::empty());
        assert(out@.to_multiset().add(rest@.to_multiset()) =~= orig.to_multiset());
    }
    while rest.len() > 0
        invariant
            sorted_by_created(out@),
            out@.to_multiset().add(rest@.to_multiset()) == orig.to_multiset(),
        decreases rest@.len(),
    {
        let ghost old_rest = rest@;
        let item = rest.remove(0);
        let mut pos: usize = 0;
        while pos < out.len() && created_le_exec(&out[pos].created, &item.created)
            invariant
                pos <= out@.len(),
                forall|k: int| 0 <= k < pos ==> created_le(#[trigger] out@[k].created, item.created),
            decreases out@.len() - pos,
        {
            pos = pos + 1;
        }
        proof {
            let o = out@;
            let p = pos as int;
            if p < o.len() {
                lemma_created_le_total(o[p].created, item.created);
            }
            assert forall|k: int| p <= k < o.len() implies created_le(
                item.created,
                #[trigger] o[k].created,
            ) by {
                if p < o.len() {
                    lemma_created_le_trans(item.created, o[p].created, o[k].created);
                }
            }
        }
        let ghost old_out = out@;
        out.insert(pos, item);
        proof {
            let o2 = out@;
            let p = pos as int;
            assert forall|a: int, b: int| 0 <= a < b < o2.len() implies created_le(
                #[trigger] o2[a].created,
                #[trigger] o2[b].created,
            ) by {
                let oa = if a < p {
                    old_out[a]
                } else if a == p {
                    item
                } else {
                    old_out[a - 1]
                };
                let ob = if b < p {
                    old_out[b]
                } else if b == p {
                    item
                } else {
                    old_out[b - 1]
                };
                assert(o2[a] == oa && o2[b] == ob);
            }
            vstd::seq_lib::to_multiset_insert::<ContainerBrief>(old_out, pos as int, item);
            assert(out@.to_multiset() =~= old_out.to_multiset().insert(item));
            assert(old_rest.contains(item)) by { assert(old_rest[0] == item); }
            vstd::seq_lib::to_multiset_remove::<ContainerBrief>(old_rest, 0);
            assert(rest@.to_multiset() =~= old_rest.to_multiset().remove(item));
            vstd::seq_lib::to_multiset_contains::<ContainerBrief>(old_rest, item);
            assert(old_rest.to_multiset().count(item) > 0);
            assert(out@.to_multiset().add(rest@.to_multiset()) =~= old_out.to_multiset().add(
                old_rest.to_multiset(),
            ));
        }
    }
    proof {
        assert(rest@.to_multiset() =~= Multiset::<ContainerBrief>::empty());
        assert(out@.to_multiset() =~= orig.to_multiset());
    }
    out
}

} // verus!
