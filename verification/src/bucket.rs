//! The properties of a bucket or of a bucket type.

use crate::connection::payload_view;
use crate::errors::{bytes_view, schema_failure, RiakErr, SchemaError};
use crate::rpb::riak::{get_bucket_resp_of, lemma_pair_round_trip};
use crate::rpb::wire::{
    all_fit, as_bool, as_u32, bytes_field, bytes_is, bytes_only, copy_opt_bytes, every_bytes,
    field_fits, fields_of, flag, last_bytes, last_varint, lemma_bytes_deep_view,
    lemma_fields_of_wire, lemma_picked_append, lemma_picked_bytes_is, lemma_picked_means,
    lemma_picked_opt_bool_is, lemma_picked_opt_bytes_is, lemma_picked_opt_varint_is,
    lemma_picks_of_none, lemma_wire_append, lemma_wire_bytes_is, lemma_wire_opt_bool_is,
    lemma_wire_opt_bytes_is, lemma_wire_opt_varint_is, low_bool, low_u32, nothing, one_bytes,
    one_varint, opt_bool_field, opt_bool_is, opt_bytes, opt_bytes_field, opt_bytes_is, opt_fits,
    opt_varint_field, opt_varint_is, pick_bytes, pick_every_bytes, pick_varint, picked,
    put_checked_bytes, put_opt_bool, put_opt_bytes, put_opt_uint32, scan_fields, varints_only, wire,
    Picked, WireField, WireFieldView, FIELD_NUMBER_MAX, VALUE_LEN_MAX,
};
use vstd::prelude::*;

verus! {

/// A hook the server runs around a write: a name, and the module and
/// function to call.
#[derive(Debug)]
pub struct CommitHook {
    pub name: Vec<u8>,
    pub module: Vec<u8>,
    pub function: Vec<u8>,
}

/// What a `CommitHook` holds.
pub struct CommitHookView {
    pub name: Seq<u8>,
    pub module: Seq<u8>,
    pub function: Seq<u8>,
}

impl View for CommitHook {
    type V = CommitHookView;

    open spec fn view(&self) -> CommitHookView {
        CommitHookView { name: self.name@, module: self.module@, function: self.function@ }
    }
}

impl DeepView for CommitHook {
    type V = CommitHookView;

    open spec fn deep_view(&self) -> CommitHookView {
        self@
    }
}

impl Clone for CommitHook {
    fn clone(&self) -> (r: CommitHook)
        ensures
            r@ == self@,
    {
        CommitHook {
            name: self.name.clone(),
            module: self.module.clone(),
            function: self.function.clone(),
        }
    }
}

/// The view of an optional pair of module and function.
pub open spec fn opt_pair(value: Option<(Vec<u8>, Vec<u8>)>) -> Option<(Seq<u8>, Seq<u8>)> {
    match value {
        Some((module, function)) => Some((module@, function@)),
        None => None,
    }
}

/// Copies an optional pair of module and function.
pub fn copy_opt_pair(value: &Option<(Vec<u8>, Vec<u8>)>) -> (r: Option<(Vec<u8>, Vec<u8>)>)
    ensures
        opt_pair(r) == opt_pair(*value),
{
    match value {
        Some((module, function)) => Some((module.clone(), function.clone())),
        None => None,
    }
}

/// Copies a list of hooks, entry by entry.
pub fn copy_hooks(hooks: &Vec<CommitHook>) -> (r: Vec<CommitHook>)
    ensures
        r.deep_view() == hooks.deep_view(),
{
    let mut copies: Vec<CommitHook> = Vec::new();
    let mut i: usize = 0;
    while i < hooks.len()
        invariant
            i <= hooks.len(),
            copies.len() == i,
            forall|k: int| 0 <= k < i ==> (#[trigger] copies[k])@ == hooks[k]@,
        decreases hooks.len() - i,
    {
        copies.push(hooks[i].clone());
        i += 1;
    }
    assert(copies.deep_view() =~= hooks.deep_view());
    copies
}

/// Whether no two hooks of a list share a name.
pub open spec fn distinct_names(hooks: Seq<CommitHookView>) -> bool {
    forall|i: int, j: int|
        0 <= i < j < hooks.len() ==> (#[trigger] hooks[i]).name != (#[trigger] hooks[j]).name
}

/// Whether a hook of the list has the name.
pub open spec fn has_name(hooks: Seq<CommitHookView>, name: Seq<u8>) -> bool {
    exists|i: int| 0 <= i < hooks.len() && (#[trigger] hooks[i]).name == name
}

/// The last hook of the list that has the name, if there is one.
pub open spec fn last_named(hooks: Seq<CommitHookView>, name: Seq<u8>) -> Option<CommitHookView>
    decreases hooks.len(),
{
    if hooks.len() == 0 {
        None
    } else {
        match last_named(hooks.drop_first(), name) {
            Some(hook) => Some(hook),
            None => if hooks.first().name == name {
                Some(hooks.first())
            } else {
                None
            },
        }
    }
}

/// The list without every hook whose name a later hook has: of the hooks
/// that share a name the last is kept, and the hooks kept stay in order.
pub open spec fn last_of_each_name(hooks: Seq<CommitHookView>) -> Seq<CommitHookView>
    decreases hooks.len(),
{
    if hooks.len() == 0 {
        Seq::empty()
    } else if has_name(hooks.drop_first(), hooks.first().name) {
        last_of_each_name(hooks.drop_first())
    } else {
        seq![hooks.first()] + last_of_each_name(hooks.drop_first())
    }
}

/// A name that a hook of the list has is the name of its last hook of that
/// name.
pub proof fn lemma_name_has_a_last(hooks: Seq<CommitHookView>, name: Seq<u8>)
    ensures
        has_name(hooks, name) == last_named(hooks, name) is Some,
        last_named(hooks, name) matches Some(hook) ==> hook.name == name,
    decreases hooks.len(),
{
    if hooks.len() > 0 {
        let later = hooks.drop_first();
        lemma_name_has_a_last(later, name);
        if has_name(hooks, name) {
            let i = choose|i: int| 0 <= i < hooks.len() && (#[trigger] hooks[i]).name == name;
            if i > 0 {
                assert(later[i - 1] == hooks[i]);
            }
        }
        if has_name(later, name) {
            let k = choose|k: int| 0 <= k < later.len() && (#[trigger] later[k]).name == name;
            assert(hooks[k + 1] == later[k]);
        }
        if hooks.first().name == name {
            assert(hooks[0].name == name);
        }
    }
}

/// Under every name, the hook that is kept is the last hook of that name:
/// no name is lost, and none has the hook of another.
pub proof fn lemma_last_of_each_name_keeps_the_last(hooks: Seq<CommitHookView>, name: Seq<u8>)
    ensures
        last_named(last_of_each_name(hooks), name) == last_named(hooks, name),
        has_name(last_of_each_name(hooks), name) == has_name(hooks, name),
    decreases hooks.len(),
{
    if hooks.len() > 0 {
        let first = hooks.first();
        let later = hooks.drop_first();
        lemma_last_of_each_name_keeps_the_last(later, name);
        lemma_name_has_a_last(later, name);
        lemma_name_has_a_last(later, first.name);
        if !has_name(later, first.name) {
            let kept = seq![first] + last_of_each_name(later);
            assert(kept.first() == first);
            assert(kept.drop_first() =~= last_of_each_name(later));
        }
    }
    lemma_name_has_a_last(hooks, name);
    lemma_name_has_a_last(last_of_each_name(hooks), name);
}

/// No two of the hooks that are kept share a name.
pub proof fn lemma_last_of_each_name_is_distinct(hooks: Seq<CommitHookView>)
    ensures
        distinct_names(last_of_each_name(hooks)),
    decreases hooks.len(),
{
    if hooks.len() > 0 {
        let first = hooks.first();
        let later = hooks.drop_first();
        lemma_last_of_each_name_is_distinct(later);
        if !has_name(later, first.name) {
            let tail = last_of_each_name(later);
            let kept = seq![first] + tail;
            lemma_last_of_each_name_keeps_the_last(later, first.name);
            assert forall|i: int, j: int| 0 <= i < j < kept.len() implies (#[trigger] kept[i]).name
                != (#[trigger] kept[j]).name by {
                assert(kept[j] == tail[j - 1]);
                if i == 0 {
                    assert(kept[0] == first);
                } else {
                    assert(kept[i] == tail[i - 1]);
                }
            }
        }
    }
}

/// Where no two hooks share a name, every hook is kept.
pub proof fn lemma_distinct_names_are_all_kept(hooks: Seq<CommitHookView>)
    requires
        distinct_names(hooks),
    ensures
        last_of_each_name(hooks) == hooks,
    decreases hooks.len(),
{
    if hooks.len() > 0 {
        let later = hooks.drop_first();
        assert forall|i: int, j: int| 0 <= i < j < later.len() implies (#[trigger] later[i]).name
            != (#[trigger] later[j]).name by {
            assert(later[i] == hooks[i + 1]);
            assert(later[j] == hooks[j + 1]);
        }
        lemma_distinct_names_are_all_kept(later);
        if has_name(later, hooks.first().name) {
            let k = choose|k: int|
                0 <= k < later.len() && (#[trigger] later[k]).name == hooks.first().name;
            assert(later[k] == hooks[k + 1]);
            assert(hooks[0].name != hooks[k + 1].name);
        }
        assert(seq![hooks.first()] + later =~= hooks);
    } else {
        assert(hooks =~= Seq::<CommitHookView>::empty());
    }
}

/// Whether two runs of bytes are the same.
pub fn same_bytes(one: &[u8], other: &[u8]) -> (r: bool)
    ensures
        r == (one@ == other@),
{
    if one.len() != other.len() {
        return false;
    }
    let mut i: usize = 0;
    while i < one.len()
        invariant
            i <= one.len(),
            one.len() == other.len(),
            forall|k: int| 0 <= k < i ==> one@[k] == other@[k],
        decreases one.len() - i,
    {
        if one[i] != other[i] {
            return false;
        }
        i += 1;
    }
    assert(one@ =~= other@);
    true
}

/// Keeps, of the hooks that share a name, the last one, so that no two of
/// the hooks returned share a name; the hooks kept stay in order.
pub fn keep_last_of_each_name(hooks: &Vec<CommitHook>) -> (r: Vec<CommitHook>)
    ensures
        r.deep_view() == last_of_each_name(hooks.deep_view()),
        distinct_names(r.deep_view()),
{
    let ghost all = hooks.deep_view();
    let mut kept: Vec<CommitHook> = Vec::new();
    let mut i: usize = 0;
    assert(all.skip(0) =~= all);
    assert(kept.deep_view() + last_of_each_name(all) =~= last_of_each_name(all));
    while i < hooks.len()
        invariant
            i <= hooks.len(),
            all == hooks.deep_view(),
            all.len() == hooks.len(),
            last_of_each_name(all) == kept.deep_view() + last_of_each_name(all.skip(i as int)),
        decreases hooks.len() - i,
    {
        let ghost tail = all.skip(i as int);
        let ghost later = all.skip(i + 1);
        assert(tail.first() == all[i as int]);
        assert(tail.drop_first() =~= later);
        assert(all[i as int] == hooks[i as int]@);
        let mut again = false;
        let mut j: usize = i + 1;
        while j < hooks.len() && !again
            invariant
                i < j <= hooks.len(),
                all == hooks.deep_view(),
                all.len() == hooks.len(),
                later == all.skip(i + 1),
                again ==> has_name(later, all[i as int].name),
                !again ==> forall|k: int|
                    i < k < j ==> (#[trigger] all[k]).name != all[i as int].name,
            decreases hooks.len() - j + if again { 0int } else { 1int },
        {
            assert(all[j as int] == hooks[j as int]@);
            if same_bytes(hooks[i].name.as_slice(), hooks[j].name.as_slice()) {
                again = true;
                assert(later[j - i - 1] == all[j as int]);
            } else {
                j += 1;
            }
        }
        if !again {
            assert(!has_name(later, all[i as int].name)) by {
                if has_name(later, all[i as int].name) {
                    let k = choose|k: int|
                        0 <= k < later.len() && (#[trigger] later[k]).name == all[i as int].name;
                    assert(later[k] == all[k + i + 1]);
                }
            }
            let ghost before = kept.deep_view();
            kept.push(hooks[i].clone());
            assert(kept.deep_view() =~= before.push(all[i as int]));
            assert(before + (seq![all[i as int]] + last_of_each_name(later)) =~= kept.deep_view()
                + last_of_each_name(later));
        }
        i += 1;
    }
    proof {
        assert(all.skip(i as int) =~= Seq::<CommitHookView>::empty());
        assert(kept.deep_view() + Seq::<CommitHookView>::empty() =~= kept.deep_view());
        lemma_last_of_each_name_is_distinct(all);
    }
    kept
}

/// The properties that can be set on a bucket. A property that is absent
/// is left as the server has it.
#[derive(Debug)]
pub struct BucketProps {
    n_val: Option<u32>,
    allow_mult: Option<bool>,
    last_write_wins: Option<bool>,
    precommit: Vec<CommitHook>,
    has_precommit: Option<bool>,
    postcommit: Vec<CommitHook>,
    has_postcommit: Option<bool>,
    chash_keyfun: Option<(Vec<u8>, Vec<u8>)>,
    linkfun: Option<(Vec<u8>, Vec<u8>)>,
    old_vclock: Option<u32>,
    young_vclock: Option<u32>,
    big_vclock: Option<u32>,
    small_vclock: Option<u32>,
    pr: Option<u32>,
    r: Option<u32>,
    w: Option<u32>,
    pw: Option<u32>,
    dw: Option<u32>,
    rw: Option<u32>,
    basic_quorum: Option<bool>,
    notfound_ok: Option<bool>,
    backend: Option<Vec<u8>>,
    search: Option<bool>,
    search_index: Option<Vec<u8>>,
    datatype: Option<Vec<u8>>,
    consistent: Option<bool>,
    write_once: Option<bool>,
    hll_precision: Option<u32>,
}

/// What a `BucketProps` holds.
pub struct BucketPropsView {
    /// How many replicas an object has.
    pub n_val: Option<u32>,
    /// Whether siblings are kept.
    pub allow_mult: Option<bool>,
    /// Whether the latest write replaces all others.
    pub last_write_wins: Option<bool>,
    /// The hooks run before a write, in the order sent.
    pub precommit: Seq<CommitHookView>,
    /// Whether the list of precommit hooks is meant.
    pub has_precommit: Option<bool>,
    /// The hooks run after a write, in the order sent.
    pub postcommit: Seq<CommitHookView>,
    /// Whether the list of postcommit hooks is meant.
    pub has_postcommit: Option<bool>,
    /// The module and function that hash a key onto the ring.
    pub chash_keyfun: Option<(Seq<u8>, Seq<u8>)>,
    /// The module and function that walk links.
    pub linkfun: Option<(Seq<u8>, Seq<u8>)>,
    /// The age at which entries of a version vector are pruned.
    pub old_vclock: Option<u32>,
    /// The age below which entries of a version vector are kept.
    pub young_vclock: Option<u32>,
    /// The length at which a version vector is pruned.
    pub big_vclock: Option<u32>,
    /// The length below which a version vector is kept.
    pub small_vclock: Option<u32>,
    /// The primary read quorum.
    pub pr: Option<u32>,
    /// The read quorum.
    pub r: Option<u32>,
    /// The write quorum.
    pub w: Option<u32>,
    /// The primary write quorum.
    pub pw: Option<u32>,
    /// The durable write quorum.
    pub dw: Option<u32>,
    /// The delete quorum.
    pub rw: Option<u32>,
    /// Whether a quorum of not-found answers ends a read early.
    pub basic_quorum: Option<bool>,
    /// Whether a not-found answer counts towards the quorum.
    pub notfound_ok: Option<bool>,
    /// The storage backend.
    pub backend: Option<Seq<u8>>,
    /// Whether the bucket is indexed by the old search.
    pub search: Option<bool>,
    /// The search index of the bucket.
    pub search_index: Option<Seq<u8>>,
    /// The data type the bucket holds.
    pub datatype: Option<Seq<u8>>,
    /// Whether the bucket is strongly consistent.
    pub consistent: Option<bool>,
    /// Whether a key is written once only.
    pub write_once: Option<bool>,
    /// The precision of hyperloglog sets.
    pub hll_precision: Option<u32>,
}

impl View for BucketProps {
    type V = BucketPropsView;

    closed spec fn view(&self) -> BucketPropsView {
        BucketPropsView {
            n_val: self.n_val,
            allow_mult: self.allow_mult,
            last_write_wins: self.last_write_wins,
            precommit: self.precommit.deep_view(),
            has_precommit: self.has_precommit,
            postcommit: self.postcommit.deep_view(),
            has_postcommit: self.has_postcommit,
            chash_keyfun: opt_pair(self.chash_keyfun),
            linkfun: opt_pair(self.linkfun),
            old_vclock: self.old_vclock,
            young_vclock: self.young_vclock,
            big_vclock: self.big_vclock,
            small_vclock: self.small_vclock,
            pr: self.pr,
            r: self.r,
            w: self.w,
            pw: self.pw,
            dw: self.dw,
            rw: self.rw,
            basic_quorum: self.basic_quorum,
            notfound_ok: self.notfound_ok,
            backend: opt_bytes(self.backend),
            search: self.search,
            search_index: opt_bytes(self.search_index),
            datatype: opt_bytes(self.datatype),
            consistent: self.consistent,
            write_once: self.write_once,
            hll_precision: self.hll_precision,
        }
    }
}

impl DeepView for BucketProps {
    type V = BucketPropsView;

    open spec fn deep_view(&self) -> BucketPropsView {
        self@
    }
}

impl Clone for BucketProps {
    fn clone(&self) -> (r: BucketProps)
        ensures
            r@ == self@,
    {
        BucketProps {
            n_val: self.n_val,
            allow_mult: self.allow_mult,
            last_write_wins: self.last_write_wins,
            precommit: copy_hooks(&self.precommit),
            has_precommit: self.has_precommit,
            postcommit: copy_hooks(&self.postcommit),
            has_postcommit: self.has_postcommit,
            chash_keyfun: copy_opt_pair(&self.chash_keyfun),
            linkfun: copy_opt_pair(&self.linkfun),
            old_vclock: self.old_vclock,
            young_vclock: self.young_vclock,
            big_vclock: self.big_vclock,
            small_vclock: self.small_vclock,
            pr: self.pr,
            r: self.r,
            w: self.w,
            pw: self.pw,
            dw: self.dw,
            rw: self.rw,
            basic_quorum: self.basic_quorum,
            notfound_ok: self.notfound_ok,
            backend: copy_opt_bytes(&self.backend),
            search: self.search,
            search_index: copy_opt_bytes(&self.search_index),
            datatype: copy_opt_bytes(&self.datatype),
            consistent: self.consistent,
            write_once: self.write_once,
            hll_precision: self.hll_precision,
        }
    }
}

impl BucketProps {
    /// Properties with nothing set.
    pub fn new() -> (r: BucketProps)
        ensures
            r@ == BucketPropsView::unset(),
    {
        let precommit: Vec<CommitHook> = Vec::new();
        let postcommit: Vec<CommitHook> = Vec::new();
        assert(precommit.deep_view() =~= Seq::<CommitHookView>::empty());
        assert(postcommit.deep_view() =~= Seq::<CommitHookView>::empty());
        BucketProps {
            n_val: None,
            allow_mult: None,
            last_write_wins: None,
            precommit,
            has_precommit: None,
            postcommit,
            has_postcommit: None,
            chash_keyfun: None,
            linkfun: None,
            old_vclock: None,
            young_vclock: None,
            big_vclock: None,
            small_vclock: None,
            pr: None,
            r: None,
            w: None,
            pw: None,
            dw: None,
            rw: None,
            basic_quorum: None,
            notfound_ok: None,
            backend: None,
            search: None,
            search_index: None,
            datatype: None,
            consistent: None,
            write_once: None,
            hll_precision: None,
        }
    }

    /// Whether siblings are kept.
    pub fn get_allow_mult(&self) -> (r: Option<bool>)
        ensures
            r == self@.allow_mult,
    {
        self.allow_mult
    }

    /// Sets whether siblings are kept.
    pub fn set_allow_mult(&mut self, allow_mult: bool)
        ensures
            final(self)@ == (BucketPropsView { allow_mult: Some(allow_mult), ..old(self)@ }),
    {
        self.allow_mult = Some(allow_mult);
    }

    /// The storage backend.
    pub fn get_backend(&self) -> (r: Option<Vec<u8>>)
        ensures
            opt_bytes(r) == self@.backend,
    {
        copy_opt_bytes(&self.backend)
    }

    /// Sets the storage backend.
    pub fn set_backend(&mut self, backend: Vec<u8>)
        ensures
            final(self)@ == (BucketPropsView { backend: Some(backend@), ..old(self)@ }),
    {
        self.backend = Some(backend);
    }

    /// Whether a quorum of not-found answers ends a read early.
    pub fn get_basic_quorum(&self) -> (r: Option<bool>)
        ensures
            r == self@.basic_quorum,
    {
        self.basic_quorum
    }

    /// Sets whether a quorum of not-found answers ends a read early.
    pub fn set_basic_quorum(&mut self, basic_quorum: bool)
        ensures
            final(self)@ == (BucketPropsView { basic_quorum: Some(basic_quorum), ..old(self)@ }),
    {
        self.basic_quorum = Some(basic_quorum);
    }

    /// The length at which a version vector is pruned.
    pub fn get_big_vclock(&self) -> (r: Option<u32>)
        ensures
            r == self@.big_vclock,
    {
        self.big_vclock
    }

    /// Sets the length at which a version vector is pruned.
    pub fn set_big_vclock(&mut self, big_vclock: u32)
        ensures
            final(self)@ == (BucketPropsView { big_vclock: Some(big_vclock), ..old(self)@ }),
    {
        self.big_vclock = Some(big_vclock);
    }

    /// The module and function that hash a key onto the ring.
    pub fn get_chash_keyfun(&self) -> (r: Option<(Vec<u8>, Vec<u8>)>)
        ensures
            opt_pair(r) == self@.chash_keyfun,
    {
        copy_opt_pair(&self.chash_keyfun)
    }

    /// Sets the module and function that hash a key onto the ring.
    pub fn set_chash_keyfun(&mut self, module: Vec<u8>, function: Vec<u8>)
        ensures
            final(self)@ == (BucketPropsView {
                chash_keyfun: Some((module@, function@)),
                ..old(self)@
            }),
    {
        self.chash_keyfun = Some((module, function));
    }

    /// Whether the bucket is strongly consistent.
    pub fn get_consistent(&self) -> (r: Option<bool>)
        ensures
            r == self@.consistent,
    {
        self.consistent
    }

    /// Sets whether the bucket is strongly consistent.
    pub fn set_consistent(&mut self, consistent: bool)
        ensures
            final(self)@ == (BucketPropsView { consistent: Some(consistent), ..old(self)@ }),
    {
        self.consistent = Some(consistent);
    }

    /// The data type the bucket holds.
    pub fn get_datatype(&self) -> (r: Option<Vec<u8>>)
        ensures
            opt_bytes(r) == self@.datatype,
    {
        copy_opt_bytes(&self.datatype)
    }

    /// Sets the data type the bucket holds.
    pub fn set_datatype(&mut self, datatype: Vec<u8>)
        ensures
            final(self)@ == (BucketPropsView { datatype: Some(datatype@), ..old(self)@ }),
    {
        self.datatype = Some(datatype);
    }

    /// The durable write quorum.
    pub fn get_dw(&self) -> (r: Option<u32>)
        ensures
            r == self@.dw,
    {
        self.dw
    }

    /// Sets the durable write quorum.
    pub fn set_dw(&mut self, dw: u32)
        ensures
            final(self)@ == (BucketPropsView { dw: Some(dw), ..old(self)@ }),
    {
        self.dw = Some(dw);
    }

    /// Whether the list of postcommit hooks is meant.
    pub fn get_has_postcommit(&self) -> (r: Option<bool>)
        ensures
            r == self@.has_postcommit,
    {
        self.has_postcommit
    }

    /// Sets whether the list of postcommit hooks is meant.
    pub fn set_has_postcommit(&mut self, has_postcommit: bool)
        ensures
            final(self)@ == (BucketPropsView {
                has_postcommit: Some(has_postcommit),
                ..old(self)@
            }),
    {
        self.has_postcommit = Some(has_postcommit);
    }

    /// Whether the list of precommit hooks is meant.
    pub fn get_has_precommit(&self) -> (r: Option<bool>)
        ensures
            r == self@.has_precommit,
    {
        self.has_precommit
    }

    /// Sets whether the list of precommit hooks is meant.
    pub fn set_has_precommit(&mut self, has_precommit: bool)
        ensures
            final(self)@ == (BucketPropsView { has_precommit: Some(has_precommit), ..old(self)@ }),
    {
        self.has_precommit = Some(has_precommit);
    }

    /// The precision of hyperloglog sets.
    pub fn get_hll_precision(&self) -> (r: Option<u32>)
        ensures
            r == self@.hll_precision,
    {
        self.hll_precision
    }

    /// Sets the precision of hyperloglog sets.
    pub fn set_hll_precision(&mut self, hll_precision: u32)
        ensures
            final(self)@ == (BucketPropsView { hll_precision: Some(hll_precision), ..old(self)@ }),
    {
        self.hll_precision = Some(hll_precision);
    }

    /// Whether the latest write replaces all others.
    pub fn get_last_write_wins(&self) -> (r: Option<bool>)
        ensures
            r == self@.last_write_wins,
    {
        self.last_write_wins
    }

    /// Sets whether the latest write replaces all others.
    pub fn set_last_write_wins(&mut self, last_write_wins: bool)
        ensures
            final(self)@ == (BucketPropsView {
                last_write_wins: Some(last_write_wins),
                ..old(self)@
            }),
    {
        self.last_write_wins = Some(last_write_wins);
    }

    /// The module and function that walk links.
    pub fn get_linkfun(&self) -> (r: Option<(Vec<u8>, Vec<u8>)>)
        ensures
            opt_pair(r) == self@.linkfun,
    {
        copy_opt_pair(&self.linkfun)
    }

    /// Sets the module and function that walk links.
    pub fn set_linkfun(&mut self, module: Vec<u8>, function: Vec<u8>)
        ensures
            final(self)@ == (BucketPropsView {
                linkfun: Some((module@, function@)),
                ..old(self)@
            }),
    {
        self.linkfun = Some((module, function));
    }

    /// Whether a not-found answer counts towards the quorum.
    pub fn get_notfound_ok(&self) -> (r: Option<bool>)
        ensures
            r == self@.notfound_ok,
    {
        self.notfound_ok
    }

    /// Sets whether a not-found answer counts towards the quorum.
    pub fn set_notfound_ok(&mut self, notfound_ok: bool)
        ensures
            final(self)@ == (BucketPropsView { notfound_ok: Some(notfound_ok), ..old(self)@ }),
    {
        self.notfound_ok = Some(notfound_ok);
    }

    /// How many replicas an object has.
    pub fn get_n_val(&self) -> (r: Option<u32>)
        ensures
            r == self@.n_val,
    {
        self.n_val
    }

    /// Sets how many replicas an object has.
    pub fn set_n_val(&mut self, n_val: u32)
        ensures
            final(self)@ == (BucketPropsView { n_val: Some(n_val), ..old(self)@ }),
    {
        self.n_val = Some(n_val);
    }

    /// The age at which entries of a version vector are pruned.
    pub fn get_old_vclock(&self) -> (r: Option<u32>)
        ensures
            r == self@.old_vclock,
    {
        self.old_vclock
    }

    /// Sets the age at which entries of a version vector are pruned.
    pub fn set_old_vclock(&mut self, old_vclock: u32)
        ensures
            final(self)@ == (BucketPropsView { old_vclock: Some(old_vclock), ..old(self)@ }),
    {
        self.old_vclock = Some(old_vclock);
    }

    /// The hooks run after a write, in the order sent; `None` where there are none.
    pub fn get_postcommit(&self) -> (r: Option<Vec<CommitHook>>)
        ensures
            match r {
                Some(hooks) => hooks.deep_view() == self@.postcommit && self@.postcommit.len() > 0,
                None => self@.postcommit.len() == 0,
            },
    {
        if self.postcommit.len() > 0 {
            Some(copy_hooks(&self.postcommit))
        } else {
            None
        }
    }

    /// Sets the hooks run after a write, in the order sent.
    pub fn set_postcommit(&mut self, postcommit: Vec<CommitHook>)
        ensures
            final(self)@ == (BucketPropsView { postcommit: postcommit.deep_view(), ..old(self)@ }),
    {
        self.postcommit = postcommit;
    }

    /// The hooks run before a write, in the order sent; `None` where there are none.
    pub fn get_precommit(&self) -> (r: Option<Vec<CommitHook>>)
        ensures
            match r {
                Some(hooks) => hooks.deep_view() == self@.precommit && self@.precommit.len() > 0,
                None => self@.precommit.len() == 0,
            },
    {
        if self.precommit.len() > 0 {
            Some(copy_hooks(&self.precommit))
        } else {
            None
        }
    }

    /// Sets the hooks run before a write, in the order sent.
    pub fn set_precommit(&mut self, precommit: Vec<CommitHook>)
        ensures
            final(self)@ == (BucketPropsView { precommit: precommit.deep_view(), ..old(self)@ }),
    {
        self.precommit = precommit;
    }

    /// The primary read quorum.
    pub fn get_pr(&self) -> (r: Option<u32>)
        ensures
            r == self@.pr,
    {
        self.pr
    }

    /// Sets the primary read quorum.
    pub fn set_pr(&mut self, pr: u32)
        ensures
            final(self)@ == (BucketPropsView { pr: Some(pr), ..old(self)@ }),
    {
        self.pr = Some(pr);
    }

    /// The primary write quorum.
    pub fn get_pw(&self) -> (r: Option<u32>)
        ensures
            r == self@.pw,
    {
        self.pw
    }

    /// Sets the primary write quorum.
    pub fn set_pw(&mut self, pw: u32)
        ensures
            final(self)@ == (BucketPropsView { pw: Some(pw), ..old(self)@ }),
    {
        self.pw = Some(pw);
    }

    /// The read quorum.
    pub fn get_r(&self) -> (r: Option<u32>)
        ensures
            r == self@.r,
    {
        self.r
    }

    /// Sets the read quorum.
    pub fn set_r(&mut self, r: u32)
        ensures
            final(self)@ == (BucketPropsView { r: Some(r), ..old(self)@ }),
    {
        self.r = Some(r);
    }

    /// The delete quorum.
    pub fn get_rw(&self) -> (r: Option<u32>)
        ensures
            r == self@.rw,
    {
        self.rw
    }

    /// Sets the delete quorum.
    pub fn set_rw(&mut self, rw: u32)
        ensures
            final(self)@ == (BucketPropsView { rw: Some(rw), ..old(self)@ }),
    {
        self.rw = Some(rw);
    }

    /// The search index of the bucket.
    pub fn get_search_index(&self) -> (r: Option<Vec<u8>>)
        ensures
            opt_bytes(r) == self@.search_index,
    {
        copy_opt_bytes(&self.search_index)
    }

    /// Sets the search index of the bucket.
    pub fn set_search_index(&mut self, search_index: Vec<u8>)
        ensures
            final(self)@ == (BucketPropsView { search_index: Some(search_index@), ..old(self)@ }),
    {
        self.search_index = Some(search_index);
    }

    /// Whether the bucket is indexed by the old search.
    pub fn get_search(&self) -> (r: Option<bool>)
        ensures
            r == self@.search,
    {
        self.search
    }

    /// Sets whether the bucket is indexed by the old search.
    pub fn set_search(&mut self, search: bool)
        ensures
            final(self)@ == (BucketPropsView { search: Some(search), ..old(self)@ }),
    {
        self.search = Some(search);
    }

    /// The length below which a version vector is kept.
    pub fn get_small_vclock(&self) -> (r: Option<u32>)
        ensures
            r == self@.small_vclock,
    {
        self.small_vclock
    }

    /// Sets the length below which a version vector is kept.
    pub fn set_small_vclock(&mut self, small_vclock: u32)
        ensures
            final(self)@ == (BucketPropsView { small_vclock: Some(small_vclock), ..old(self)@ }),
    {
        self.small_vclock = Some(small_vclock);
    }

    /// Whether a key is written once only.
    pub fn get_write_once(&self) -> (r: Option<bool>)
        ensures
            r == self@.write_once,
    {
        self.write_once
    }

    /// Sets whether a key is written once only.
    pub fn set_write_once(&mut self, write_once: bool)
        ensures
            final(self)@ == (BucketPropsView { write_once: Some(write_once), ..old(self)@ }),
    {
        self.write_once = Some(write_once);
    }

    /// The write quorum.
    pub fn get_w(&self) -> (r: Option<u32>)
        ensures
            r == self@.w,
    {
        self.w
    }

    /// Sets the write quorum.
    pub fn set_w(&mut self, w: u32)
        ensures
            final(self)@ == (BucketPropsView { w: Some(w), ..old(self)@ }),
    {
        self.w = Some(w);
    }

    /// The age below which entries of a version vector are kept.
    pub fn get_young_vclock(&self) -> (r: Option<u32>)
        ensures
            r == self@.young_vclock,
    {
        self.young_vclock
    }

    /// Sets the age below which entries of a version vector are kept.
    pub fn set_young_vclock(&mut self, young_vclock: u32)
        ensures
            final(self)@ == (BucketPropsView { young_vclock: Some(young_vclock), ..old(self)@ }),
    {
        self.young_vclock = Some(young_vclock);
    }
}

impl BucketPropsView {
    /// Properties with nothing set.
    pub open spec fn unset() -> BucketPropsView {
        BucketPropsView {
            n_val: None,
            allow_mult: None,
            last_write_wins: None,
            precommit: Seq::empty(),
            has_precommit: None,
            postcommit: Seq::empty(),
            has_postcommit: None,
            chash_keyfun: None,
            linkfun: None,
            old_vclock: None,
            young_vclock: None,
            big_vclock: None,
            small_vclock: None,
            pr: None,
            r: None,
            w: None,
            pw: None,
            dw: None,
            rw: None,
            basic_quorum: None,
            notfound_ok: None,
            backend: None,
            search: None,
            search_index: None,
            datatype: None,
            consistent: None,
            write_once: None,
            hll_precision: None,
        }
    }
}

/// Module and function on the wire: the module in field 1, the function in
/// field 2.
pub open spec fn modfun_bytes(module: Seq<u8>, function: Seq<u8>) -> Seq<u8> {
    bytes_field(1, module) + bytes_field(2, function)
}

/// Whether module and function, and the record of both, are short enough
/// for a field.
pub open spec fn modfun_fits(module: Seq<u8>, function: Seq<u8>) -> bool {
    &&& module.len() <= VALUE_LEN_MAX
    &&& function.len() <= VALUE_LEN_MAX
    &&& modfun_bytes(module, function).len() <= VALUE_LEN_MAX
}

/// An optional pair of module and function as a nested record: nothing
/// where the pair is absent.
pub open spec fn opt_modfun_field(number: nat, value: Option<(Seq<u8>, Seq<u8>)>) -> Seq<u8> {
    match value {
        Some((module, function)) => bytes_field(number, modfun_bytes(module, function)),
        None => Seq::empty(),
    }
}

/// Whether an optional pair of module and function can be rendered.
pub open spec fn opt_modfun_fits(value: Option<(Seq<u8>, Seq<u8>)>) -> bool {
    match value {
        Some((module, function)) => modfun_fits(module, function),
        None => true,
    }
}

/// A hook on the wire: module and function as a nested record in field 1,
/// the name in field 2.
pub open spec fn hook_bytes(hook: CommitHookView) -> Seq<u8> {
    bytes_field(1, modfun_bytes(hook.module, hook.function)) + bytes_field(2, hook.name)
}

/// Whether a hook can be rendered.
pub open spec fn hook_fits(hook: CommitHookView) -> bool {
    &&& modfun_fits(hook.module, hook.function)
    &&& hook.name.len() <= VALUE_LEN_MAX
    &&& hook_bytes(hook).len() <= VALUE_LEN_MAX
}

/// A list of hooks on the wire: one nested record for each, in order, all
/// under the same number.
pub open spec fn hooks_field(number: nat, hooks: Seq<CommitHookView>) -> Seq<u8>
    decreases hooks.len(),
{
    if hooks.len() == 0 {
        Seq::empty()
    } else {
        hooks_field(number, hooks.drop_last()) + bytes_field(number, hook_bytes(hooks.last()))
    }
}

/// Whether every hook of a list can be rendered.
pub open spec fn hooks_fit(hooks: Seq<CommitHookView>) -> bool {
    forall|i: int| 0 <= i < hooks.len() ==> hook_fits(#[trigger] hooks[i])
}

/// Whether every property that is set can be rendered.
pub open spec fn props_fit(props: BucketPropsView) -> bool {
    &&& hooks_fit(props.precommit)
    &&& hooks_fit(props.postcommit)
    &&& opt_modfun_fits(props.chash_keyfun)
    &&& opt_modfun_fits(props.linkfun)
    &&& opt_fits(props.backend)
    &&& opt_fits(props.search_index)
    &&& opt_fits(props.datatype)
}

/// Properties on the wire: whatever is set, each under its own number, in
/// the order of the numbers.
#[verifier::opaque]
pub open spec fn props_bytes(props: BucketPropsView) -> Seq<u8> {
    opt_varint_field(1, props.n_val) + opt_bool_field(2, props.allow_mult)
        + opt_bool_field(3, props.last_write_wins) + hooks_field(4, props.precommit)
        + opt_bool_field(5, props.has_precommit) + hooks_field(6, props.postcommit)
        + opt_bool_field(7, props.has_postcommit) + opt_modfun_field(8, props.chash_keyfun)
        + opt_modfun_field(9, props.linkfun) + opt_varint_field(10, props.old_vclock)
        + opt_varint_field(11, props.young_vclock) + opt_varint_field(12, props.big_vclock)
        + opt_varint_field(13, props.small_vclock) + opt_varint_field(14, props.pr)
        + opt_varint_field(15, props.r) + opt_varint_field(16, props.w)
        + opt_varint_field(17, props.pw) + opt_varint_field(18, props.dw)
        + opt_varint_field(19, props.rw) + opt_bool_field(20, props.basic_quorum)
        + opt_bool_field(21, props.notfound_ok) + opt_bytes_field(22, props.backend)
        + opt_bool_field(23, props.search) + opt_bytes_field(25, props.search_index)
        + opt_bytes_field(26, props.datatype) + opt_bool_field(27, props.consistent)
        + opt_bool_field(28, props.write_once) + opt_varint_field(29, props.hll_precision)
}

/// What rendering properties gives.
pub open spec fn props_payload(props: BucketPropsView) -> Result<Seq<u8>, SchemaError> {
    if props_fit(props) {
        Ok(props_bytes(props))
    } else {
        Err(SchemaError::TooLong)
    }
}

/// A request to set properties on the wire: the name of the bucket, or of
/// the bucket type, in field 1 and the properties as a nested record in
/// field 2.
pub open spec fn set_props_payload(name: Seq<u8>, props: BucketPropsView) -> Result<
    Seq<u8>,
    SchemaError,
> {
    if name.len() <= VALUE_LEN_MAX && props_fit(props) && props_bytes(props).len()
        <= VALUE_LEN_MAX {
        Ok(bytes_field(1, name) + bytes_field(2, props_bytes(props)))
    } else {
        Err(SchemaError::TooLong)
    }
}

/// Renders module and function as a nested record. Fails with `TooLong`
/// exactly when one of them is longer than a field can hold.
pub fn write_modfun(module: &[u8], function: &[u8]) -> (r: Result<Vec<u8>, SchemaError>)
    ensures
        match r {
            Ok(out) => module.len() <= VALUE_LEN_MAX && function.len() <= VALUE_LEN_MAX && out@
                == modfun_bytes(module@, function@),
            Err(error) => error == SchemaError::TooLong && !(module.len() <= VALUE_LEN_MAX
                && function.len() <= VALUE_LEN_MAX),
        },
{
    let mut out: Vec<u8> = Vec::new();
    put_checked_bytes(&mut out, 1, module)?;
    put_checked_bytes(&mut out, 2, function)?;
    assert(out@ =~= modfun_bytes(module@, function@));
    Ok(out)
}

/// Appends module and function as a nested record if they are present.
/// Fails with `TooLong` exactly when they cannot be rendered, and appends
/// nothing then.
pub fn put_opt_modfun(out: &mut Vec<u8>, number: u32, value: &Option<(Vec<u8>, Vec<u8>)>) -> (r:
    Result<(), SchemaError>)
    requires
        1 <= number <= FIELD_NUMBER_MAX,
    ensures
        match r {
            Ok(()) => opt_modfun_fits(opt_pair(*value)) && final(out)@ == old(out)@
                + opt_modfun_field(number as nat, opt_pair(*value)),
            Err(error) => error == SchemaError::TooLong && !opt_modfun_fits(opt_pair(*value))
                && final(out)@ == old(out)@,
        },
{
    match value {
        Some((module, function)) => {
            let record = write_modfun(module.as_slice(), function.as_slice())?;
            put_checked_bytes(out, number, record.as_slice())
        },
        None => {
            assert(out@ + Seq::<u8>::empty() =~= out@);
            Ok(())
        },
    }
}

/// Renders a hook as a nested record. Fails with `TooLong` exactly when the
/// module, the function, the record of the two or the name is longer than a
/// field can hold.
pub fn write_hook(hook: &CommitHook) -> (r: Result<Vec<u8>, SchemaError>)
    ensures
        match r {
            Ok(out) => modfun_fits(hook@.module, hook@.function) && hook@.name.len()
                <= VALUE_LEN_MAX && out@ == hook_bytes(hook@),
            Err(error) => error == SchemaError::TooLong && !(modfun_fits(
                hook@.module,
                hook@.function,
            ) && hook@.name.len() <= VALUE_LEN_MAX),
        },
{
    let modfun = write_modfun(hook.module.as_slice(), hook.function.as_slice())?;
    let mut out: Vec<u8> = Vec::new();
    put_checked_bytes(&mut out, 1, modfun.as_slice())?;
    put_checked_bytes(&mut out, 2, hook.name.as_slice())?;
    assert(out@ =~= hook_bytes(hook@));
    Ok(out)
}

/// Appends a list of hooks, one nested record each. Fails with `TooLong`
/// exactly when one of them cannot be rendered; the hooks before that one
/// have then been appended, and nothing that was there has changed.
pub fn put_hooks(out: &mut Vec<u8>, number: u32, hooks: &Vec<CommitHook>) -> (r: Result<
    (),
    SchemaError,
>)
    requires
        1 <= number <= FIELD_NUMBER_MAX,
    ensures
        match r {
            Ok(()) => hooks_fit(hooks.deep_view()) && final(out)@ == old(out)@ + hooks_field(
                number as nat,
                hooks.deep_view(),
            ),
            Err(error) => error == SchemaError::TooLong && !hooks_fit(hooks.deep_view()) && old(
                out,
            )@.is_prefix_of(final(out)@),
        },
{
    let ghost all = hooks.deep_view();
    let mut i: usize = 0;
    assert(out@ + hooks_field(number as nat, all.take(0)) =~= out@);
    while i < hooks.len()
        invariant
            i <= hooks.len(),
            1 <= number <= FIELD_NUMBER_MAX,
            all == hooks.deep_view(),
            all.len() == hooks.len(),
            hooks_fit(all.take(i as int)),
            out@ == old(out)@ + hooks_field(number as nat, all.take(i as int)),
        decreases hooks.len() - i,
    {
        assert(all.take(i + 1).drop_last() =~= all.take(i as int));
        assert(all[i as int] == hooks[i as int]@);
        let ghost before = out@;
        let record = match write_hook(&hooks[i]) {
            Ok(record) => record,
            Err(error) => {
                return Err(error);
            },
        };
        match put_checked_bytes(out, number, record.as_slice()) {
            Ok(()) => {},
            Err(error) => {
                return Err(error);
            },
        }
        proof {
            let done = all.take(i as int);
            let more = all.take(i + 1);
            assert(out@ =~= old(out)@ + hooks_field(number as nat, more));
            assert forall|k: int| 0 <= k < more.len() implies hook_fits(#[trigger] more[k]) by {
                if k < i {
                    assert(more[k] == done[k]);
                }
            }
        }
        i += 1;
    }
    assert(all.take(i as int) =~= all);
    Ok(())
}

/// The pair of module and function that a run of fields stands for; both
/// are required.
pub open spec fn modfun(fields: Seq<WireFieldView>) -> Result<(Seq<u8>, Seq<u8>), SchemaError> {
    if !(bytes_only(fields, 1) && bytes_only(fields, 2)) {
        Err(SchemaError::UnexpectedWireType)
    } else {
        match (last_bytes(fields, 1), last_bytes(fields, 2)) {
            (Some(module), Some(function)) => Ok((module, function)),
            _ => Err(SchemaError::MissingField),
        }
    }
}

/// The pair of module and function that the bytes of a nested record stand
/// for.
pub open spec fn modfun_of(bytes: Seq<u8>) -> Result<(Seq<u8>, Seq<u8>), SchemaError> {
    match fields_of(bytes) {
        Some(fields) => modfun(fields),
        None => Err(SchemaError::Malformed),
    }
}

/// The pair that an optional nested record stands for.
pub open spec fn opt_modfun_of(bytes: Option<Seq<u8>>) -> Result<
    Option<(Seq<u8>, Seq<u8>)>,
    SchemaError,
> {
    match bytes {
        None => Ok(None),
        Some(bytes) => match modfun_of(bytes) {
            Ok(pair) => Ok(Some(pair)),
            Err(error) => Err(error),
        },
    }
}

/// The hook that a run of fields stands for. A hook without a name has the
/// empty name; one without module and function has both empty.
pub open spec fn hook(fields: Seq<WireFieldView>) -> Result<CommitHookView, SchemaError> {
    if !(bytes_only(fields, 1) && bytes_only(fields, 2)) {
        Err(SchemaError::UnexpectedWireType)
    } else {
        let name = match last_bytes(fields, 2) {
            Some(name) => name,
            None => Seq::empty(),
        };
        match opt_modfun_of(last_bytes(fields, 1)) {
            Err(error) => Err(error),
            Ok(Some((module, function))) => Ok(CommitHookView { name, module, function }),
            Ok(None) => Ok(
                CommitHookView { name, module: Seq::empty(), function: Seq::empty() },
            ),
        }
    }
}

/// The hook that the bytes of a nested record stand for.
pub open spec fn hook_of(bytes: Seq<u8>) -> Result<CommitHookView, SchemaError> {
    match fields_of(bytes) {
        Some(fields) => hook(fields),
        None => Err(SchemaError::Malformed),
    }
}

/// The hooks that a list of nested records stands for, or the error of the
/// first record that cannot be read.
pub open spec fn hooks_of(records: Seq<Seq<u8>>) -> Result<Seq<CommitHookView>, SchemaError>
    decreases records.len(),
{
    if records.len() == 0 {
        Ok(Seq::empty())
    } else {
        match hooks_of(records.drop_last()) {
            Err(error) => Err(error),
            Ok(hooks) => match hook_of(records.last()) {
                Err(error) => Err(error),
                Ok(hook) => Ok(hooks.push(hook)),
            },
        }
    }
}

/// A list of nested hooks cannot be read once a part of it cannot, and the
/// error is that of the part.
pub proof fn lemma_hooks_fail_on(records: Seq<Seq<u8>>, n: int)
    requires
        0 <= n <= records.len(),
        hooks_of(records.take(n)) is Err,
    ensures
        hooks_of(records) == hooks_of(records.take(n)),
    decreases records.len() - n,
{
    if n < records.len() {
        assert(records.take(n + 1).drop_last() =~= records.take(n));
        lemma_hooks_fail_on(records, n + 1);
    } else {
        assert(records.take(n) =~= records);
    }
}

/// Whether every property that is present has the wire type of its number.
#[verifier::opaque]
pub open spec fn props_wire_ok(fields: Seq<WireFieldView>) -> bool {
    &&& varints_only(fields, 1)
    &&& varints_only(fields, 2)
    &&& varints_only(fields, 3)
    &&& bytes_only(fields, 4)
    &&& varints_only(fields, 5)
    &&& bytes_only(fields, 6)
    &&& varints_only(fields, 7)
    &&& bytes_only(fields, 8)
    &&& bytes_only(fields, 9)
    &&& varints_only(fields, 10)
    &&& varints_only(fields, 11)
    &&& varints_only(fields, 12)
    &&& varints_only(fields, 13)
    &&& varints_only(fields, 14)
    &&& varints_only(fields, 15)
    &&& varints_only(fields, 16)
    &&& varints_only(fields, 17)
    &&& varints_only(fields, 18)
    &&& varints_only(fields, 19)
    &&& varints_only(fields, 20)
    &&& varints_only(fields, 21)
    &&& bytes_only(fields, 22)
    &&& varints_only(fields, 23)
    &&& bytes_only(fields, 25)
    &&& bytes_only(fields, 26)
    &&& varints_only(fields, 27)
    &&& varints_only(fields, 28)
    &&& varints_only(fields, 29)
}

/// The properties that a run of fields stands for. Nothing is required; of
/// a property that comes more than once the last one counts; hooks are kept
/// in the order sent; fields with other numbers are passed over.
#[verifier::opaque]
pub open spec fn props(fields: Seq<WireFieldView>) -> Result<BucketPropsView, SchemaError> {
    if !props_wire_ok(fields) {
        Err(SchemaError::UnexpectedWireType)
    } else {
        match (
            hooks_of(every_bytes(fields, 4)),
            hooks_of(every_bytes(fields, 6)),
            opt_modfun_of(last_bytes(fields, 8)),
            opt_modfun_of(last_bytes(fields, 9)),
        ) {
            (Err(error), _, _, _) => Err(error),
            (Ok(_), Err(error), _, _) => Err(error),
            (Ok(_), Ok(_), Err(error), _) => Err(error),
            (Ok(_), Ok(_), Ok(_), Err(error)) => Err(error),
            (Ok(precommit), Ok(postcommit), Ok(chash_keyfun), Ok(linkfun)) => Ok(
                BucketPropsView {
                    n_val: as_u32(last_varint(fields, 1)),
                    allow_mult: as_bool(last_varint(fields, 2)),
                    last_write_wins: as_bool(last_varint(fields, 3)),
                    precommit,
                    has_precommit: as_bool(last_varint(fields, 5)),
                    postcommit,
                    has_postcommit: as_bool(last_varint(fields, 7)),
                    chash_keyfun,
                    linkfun,
                    old_vclock: as_u32(last_varint(fields, 10)),
                    young_vclock: as_u32(last_varint(fields, 11)),
                    big_vclock: as_u32(last_varint(fields, 12)),
                    small_vclock: as_u32(last_varint(fields, 13)),
                    pr: as_u32(last_varint(fields, 14)),
                    r: as_u32(last_varint(fields, 15)),
                    w: as_u32(last_varint(fields, 16)),
                    pw: as_u32(last_varint(fields, 17)),
                    dw: as_u32(last_varint(fields, 18)),
                    rw: as_u32(last_varint(fields, 19)),
                    basic_quorum: as_bool(last_varint(fields, 20)),
                    notfound_ok: as_bool(last_varint(fields, 21)),
                    backend: last_bytes(fields, 22),
                    search: as_bool(last_varint(fields, 23)),
                    search_index: last_bytes(fields, 25),
                    datatype: last_bytes(fields, 26),
                    consistent: as_bool(last_varint(fields, 27)),
                    write_once: as_bool(last_varint(fields, 28)),
                    hll_precision: as_u32(last_varint(fields, 29)),
                },
            ),
        }
    }
}

/// The properties that the bytes of a record stand for.
pub open spec fn props_of(bytes: Seq<u8>) -> Result<BucketPropsView, SchemaError> {
    match fields_of(bytes) {
        Some(fields) => props(fields),
        None => Err(SchemaError::Malformed),
    }
}

/// The view of decoded properties.
pub open spec fn props_view(r: Result<BucketProps, SchemaError>) -> Result<
    BucketPropsView,
    SchemaError,
> {
    match r {
        Ok(props) => Ok(props@),
        Err(error) => Err(error),
    }
}

/// Builds module and function from the fields of their record.
pub fn modfun_from_fields(fields: &Vec<WireField>) -> (r: Result<(Vec<u8>, Vec<u8>), SchemaError>)
    ensures
        match r {
            Ok((module, function)) => modfun(fields.deep_view()) == Ok::<
                (Seq<u8>, Seq<u8>),
                SchemaError,
            >((module@, function@)),
            Err(error) => modfun(fields.deep_view()) == Err::<(Seq<u8>, Seq<u8>), SchemaError>(
                error,
            ),
        },
{
    let module = pick_bytes(fields, 1)?;
    let function = pick_bytes(fields, 2)?;
    match (module, function) {
        (Some(module), Some(function)) => Ok((module, function)),
        _ => Err(SchemaError::MissingField),
    }
}

/// Reads an optional nested record of module and function.
pub fn parse_opt_modfun(bytes: &Option<Vec<u8>>) -> (r: Result<
    Option<(Vec<u8>, Vec<u8>)>,
    SchemaError,
>)
    ensures
        match r {
            Ok(pair) => opt_modfun_of(opt_bytes(*bytes)) == Ok::<
                Option<(Seq<u8>, Seq<u8>)>,
                SchemaError,
            >(opt_pair(pair)),
            Err(error) => opt_modfun_of(opt_bytes(*bytes)) == Err::<
                Option<(Seq<u8>, Seq<u8>)>,
                SchemaError,
            >(error),
        },
{
    match bytes {
        None => Ok(None),
        Some(bytes) => {
            let fields = scan_fields(bytes.as_slice())?;
            let pair = modfun_from_fields(&fields)?;
            Ok(Some(pair))
        },
    }
}

/// The view of a decoded hook.
pub open spec fn hook_view(r: Result<CommitHook, SchemaError>) -> Result<
    CommitHookView,
    SchemaError,
> {
    match r {
        Ok(hook) => Ok(hook@),
        Err(error) => Err(error),
    }
}

/// Builds a hook from the fields of its record.
pub fn hook_from_fields(fields: &Vec<WireField>) -> (r: Result<CommitHook, SchemaError>)
    ensures
        hook_view(r) == hook(fields.deep_view()),
{
    let modfun = pick_bytes(fields, 1)?;
    let name = pick_bytes(fields, 2)?;
    let name = match name {
        Some(name) => name,
        None => Vec::new(),
    };
    match parse_opt_modfun(&modfun)? {
        Some((module, function)) => Ok(CommitHook { name, module, function }),
        None => Ok(CommitHook { name, module: Vec::new(), function: Vec::new() }),
    }
}

/// Reads the bytes of a nested hook record.
pub fn parse_hook(bytes: &[u8]) -> (r: Result<CommitHook, SchemaError>)
    ensures
        hook_view(r) == hook_of(bytes@),
{
    let fields = scan_fields(bytes)?;
    hook_from_fields(&fields)
}

/// Reads a list of nested hook records, in order.
pub fn parse_hooks(records: &Vec<Vec<u8>>) -> (r: Result<Vec<CommitHook>, SchemaError>)
    ensures
        match r {
            Ok(hooks) => hooks_of(records.deep_view()) == Ok::<Seq<CommitHookView>, SchemaError>(
                hooks.deep_view(),
            ),
            Err(error) => hooks_of(records.deep_view()) == Err::<
                Seq<CommitHookView>,
                SchemaError,
            >(error),
        },
{
    let ghost all = records.deep_view();
    let mut hooks: Vec<CommitHook> = Vec::new();
    let mut i: usize = 0;
    assert(all.take(0) =~= Seq::<Seq<u8>>::empty());
    assert(hooks.deep_view() =~= Seq::<CommitHookView>::empty());
    while i < records.len()
        invariant
            i <= records.len(),
            all == records.deep_view(),
            hooks_of(all.take(i as int)) == Ok::<Seq<CommitHookView>, SchemaError>(
                hooks.deep_view(),
            ),
        decreases records.len() - i,
    {
        proof {
            assert(all.take(i + 1).drop_last() =~= all.take(i as int));
            assert(all.take(i + 1).last() == all[i as int]);
            lemma_bytes_deep_view(records[i as int]);
        }
        let ghost before = hooks.deep_view();
        match parse_hook(records[i].as_slice()) {
            Ok(hook) => {
                hooks.push(hook);
                assert(hooks.deep_view() =~= before.push(hook@));
            },
            Err(error) => {
                proof {
                    assert(hook_of(all.take(i + 1).last()) == Err::<CommitHookView, SchemaError>(
                        error,
                    ));
                    assert(hooks_of(all.take(i + 1)) is Err);
                    lemma_hooks_fail_on(all, i as int + 1);
                }
                return Err(error);
            },
        }
        i += 1;
    }
    assert(all.take(i as int) =~= all);
    Ok(hooks)
}

impl BucketProps {
    /// Builds properties from the fields of their record.
    pub fn from_fields(fields: &Vec<WireField>) -> (r: Result<BucketProps, SchemaError>)
        ensures
            props_view(r) == props(fields.deep_view()),
    {
        proof {
            reveal(props);
            reveal(props_wire_ok);
        }
        let n_val = low_u32(pick_varint(fields, 1)?);
        let allow_mult = low_bool(pick_varint(fields, 2)?);
        let last_write_wins = low_bool(pick_varint(fields, 3)?);
        let precommit = pick_every_bytes(fields, 4)?;
        let has_precommit = low_bool(pick_varint(fields, 5)?);
        let postcommit = pick_every_bytes(fields, 6)?;
        let has_postcommit = low_bool(pick_varint(fields, 7)?);
        let chash_keyfun = pick_bytes(fields, 8)?;
        let linkfun = pick_bytes(fields, 9)?;
        let old_vclock = low_u32(pick_varint(fields, 10)?);
        let young_vclock = low_u32(pick_varint(fields, 11)?);
        let big_vclock = low_u32(pick_varint(fields, 12)?);
        let small_vclock = low_u32(pick_varint(fields, 13)?);
        let pr = low_u32(pick_varint(fields, 14)?);
        let r = low_u32(pick_varint(fields, 15)?);
        let w = low_u32(pick_varint(fields, 16)?);
        let pw = low_u32(pick_varint(fields, 17)?);
        let dw = low_u32(pick_varint(fields, 18)?);
        let rw = low_u32(pick_varint(fields, 19)?);
        let basic_quorum = low_bool(pick_varint(fields, 20)?);
        let notfound_ok = low_bool(pick_varint(fields, 21)?);
        let backend = pick_bytes(fields, 22)?;
        let search = low_bool(pick_varint(fields, 23)?);
        let search_index = pick_bytes(fields, 25)?;
        let datatype = pick_bytes(fields, 26)?;
        let consistent = low_bool(pick_varint(fields, 27)?);
        let write_once = low_bool(pick_varint(fields, 28)?);
        let hll_precision = low_u32(pick_varint(fields, 29)?);
        let precommit = parse_hooks(&precommit)?;
        let postcommit = parse_hooks(&postcommit)?;
        let chash_keyfun = parse_opt_modfun(&chash_keyfun)?;
        let linkfun = parse_opt_modfun(&linkfun)?;
        Ok(
            BucketProps {
                n_val,
                allow_mult,
                last_write_wins,
                precommit,
                has_precommit,
                postcommit,
                has_postcommit,
                chash_keyfun,
                linkfun,
                old_vclock,
                young_vclock,
                big_vclock,
                small_vclock,
                pr,
                r,
                w,
                pw,
                dw,
                rw,
                basic_quorum,
                notfound_ok,
                backend,
                search,
                search_index,
                datatype,
                consistent,
                write_once,
                hll_precision,
            },
        )
    }

    /// Reads the bytes of a properties record.
    pub fn parse(bytes: &[u8]) -> (r: Result<BucketProps, SchemaError>)
        ensures
            props_view(r) == props_of(bytes@),
    {
        let fields = scan_fields(bytes)?;
        BucketProps::from_fields(&fields)
    }

    /// Replaces every property by those that the bytes of a properties
    /// record hold. On an error nothing changes.
    pub fn set_props(&mut self, props: &[u8]) -> (r: Result<(), SchemaError>)
        ensures
            match r {
                Ok(()) => props_of(props@) == Ok::<BucketPropsView, SchemaError>(final(self)@),
                Err(error) => props_of(props@) == Err::<BucketPropsView, SchemaError>(error)
                    && final(self)@ == old(self)@,
            },
    {
        let parsed = BucketProps::parse(props)?;
        *self = parsed;
        Ok(())
    }

    /// Renders the properties as a record. Fails with `TooLong` exactly when
    /// a hook, a pair of module and function, or a text is longer than a
    /// field can hold.
    pub fn props_to_bytes(&self) -> (r: Result<Vec<u8>, SchemaError>)
        ensures
            bytes_view(r) == props_payload(self@),
    {
        let mut out: Vec<u8> = Vec::new();
        put_opt_uint32(&mut out, 1, self.n_val);
        put_opt_bool(&mut out, 2, self.allow_mult);
        put_opt_bool(&mut out, 3, self.last_write_wins);
        put_hooks(&mut out, 4, &self.precommit)?;
        put_opt_bool(&mut out, 5, self.has_precommit);
        put_hooks(&mut out, 6, &self.postcommit)?;
        put_opt_bool(&mut out, 7, self.has_postcommit);
        put_opt_modfun(&mut out, 8, &self.chash_keyfun)?;
        put_opt_modfun(&mut out, 9, &self.linkfun)?;
        put_opt_uint32(&mut out, 10, self.old_vclock);
        put_opt_uint32(&mut out, 11, self.young_vclock);
        put_opt_uint32(&mut out, 12, self.big_vclock);
        put_opt_uint32(&mut out, 13, self.small_vclock);
        put_opt_uint32(&mut out, 14, self.pr);
        put_opt_uint32(&mut out, 15, self.r);
        put_opt_uint32(&mut out, 16, self.w);
        put_opt_uint32(&mut out, 17, self.pw);
        put_opt_uint32(&mut out, 18, self.dw);
        put_opt_uint32(&mut out, 19, self.rw);
        put_opt_bool(&mut out, 20, self.basic_quorum);
        put_opt_bool(&mut out, 21, self.notfound_ok);
        put_opt_bytes(&mut out, 22, &self.backend)?;
        put_opt_bool(&mut out, 23, self.search);
        put_opt_bytes(&mut out, 25, &self.search_index)?;
        put_opt_bytes(&mut out, 26, &self.datatype)?;
        put_opt_bool(&mut out, 27, self.consistent);
        put_opt_bool(&mut out, 28, self.write_once);
        put_opt_uint32(&mut out, 29, self.hll_precision);
        proof {
            reveal(props_bytes);
        }
        assert(out@ =~= props_bytes(self@));
        Ok(out)
    }

    /// The payload of a request to set these properties on the bucket, or,
    /// with `is_bucket_type`, on the bucket type, named `bucket`. The two
    /// requests differ in their message code, not in their layout. Fails
    /// with `TooLong` exactly when the name, a property or the record of
    /// the properties is longer than a field can hold.
    pub fn write_to_bytes(&self, bucket: Vec<u8>, is_bucket_type: bool) -> (r: Result<
        Vec<u8>,
        RiakErr,
    >)
        ensures
            payload_view(r) == schema_failure(set_props_payload(bucket@, self@)),
    {
        let props = match self.props_to_bytes() {
            Ok(props) => props,
            Err(error) => {
                return Err(RiakErr::ProtobufError(error));
            },
        };
        let mut out: Vec<u8> = Vec::new();
        if let Err(error) = put_checked_bytes(&mut out, 1, bucket.as_slice()) {
            return Err(RiakErr::ProtobufError(error));
        }
        if let Err(error) = put_checked_bytes(&mut out, 2, props.as_slice()) {
            return Err(RiakErr::ProtobufError(error));
        }
        assert(out@ =~= bytes_field(1, bucket@) + bytes_field(2, props_bytes(self@)));
        Ok(out)
    }
}

/// The nested record of an optional pair of module and function.
pub open spec fn opt_modfun_record(value: Option<(Seq<u8>, Seq<u8>)>) -> Option<Seq<u8>> {
    match value {
        Some((module, function)) => Some(modfun_bytes(module, function)),
        None => None,
    }
}

/// The records of a list of hooks, in order.
pub open spec fn hook_bytes_of(hooks: Seq<CommitHookView>) -> Seq<Seq<u8>> {
    Seq::new(hooks.len(), |i: int| hook_bytes(hooks[i]))
}

/// A nested record under `number` for each hook of a list, in order.
pub open spec fn hook_records(number: u32, hooks: Seq<CommitHookView>) -> Seq<WireFieldView> {
    Seq::new(hooks.len(), |i: int| bytes_is(number, hook_bytes(hooks[i])))
}

/// The fields of properties, in the order they are written.
#[verifier::opaque]
pub open spec fn props_fields(props: BucketPropsView) -> Seq<WireFieldView> {
    opt_varint_is(1, props.n_val) + opt_bool_is(2, props.allow_mult)
        + opt_bool_is(3, props.last_write_wins) + hook_records(4, props.precommit)
        + opt_bool_is(5, props.has_precommit) + hook_records(6, props.postcommit)
        + opt_bool_is(7, props.has_postcommit)
        + opt_bytes_is(8, opt_modfun_record(props.chash_keyfun))
        + opt_bytes_is(9, opt_modfun_record(props.linkfun))
        + opt_varint_is(10, props.old_vclock) + opt_varint_is(11, props.young_vclock)
        + opt_varint_is(12, props.big_vclock) + opt_varint_is(13, props.small_vclock)
        + opt_varint_is(14, props.pr) + opt_varint_is(15, props.r) + opt_varint_is(16, props.w)
        + opt_varint_is(17, props.pw) + opt_varint_is(18, props.dw)
        + opt_varint_is(19, props.rw) + opt_bool_is(20, props.basic_quorum)
        + opt_bool_is(21, props.notfound_ok) + opt_bytes_is(22, props.backend)
        + opt_bool_is(23, props.search) + opt_bytes_is(25, props.search_index)
        + opt_bytes_is(26, props.datatype) + opt_bool_is(27, props.consistent)
        + opt_bool_is(28, props.write_once) + opt_varint_is(29, props.hll_precision)
}

/// Module and function come back as they went out.
pub proof fn lemma_modfun_round_trip(module: Seq<u8>, function: Seq<u8>)
    requires
        module.len() <= VALUE_LEN_MAX,
        function.len() <= VALUE_LEN_MAX,
    ensures
        modfun_of(modfun_bytes(module, function)) == Ok::<(Seq<u8>, Seq<u8>), SchemaError>(
            (module, function),
        ),
{
    lemma_pair_round_trip(module, function);
}

/// A hook comes back as it went out.
pub proof fn lemma_hook_round_trip(hook: CommitHookView)
    requires
        hook_fits(hook),
    ensures
        hook_of(hook_bytes(hook)) == Ok::<CommitHookView, SchemaError>(hook),
{
    let record = modfun_bytes(hook.module, hook.function);
    lemma_pair_round_trip(record, hook.name);
    lemma_modfun_round_trip(hook.module, hook.function);
}

/// A list of hooks comes back as it went out, in the same order.
pub proof fn lemma_hooks_round_trip(hooks: Seq<CommitHookView>)
    requires
        hooks_fit(hooks),
    ensures
        hooks_of(hook_bytes_of(hooks)) == Ok::<Seq<CommitHookView>, SchemaError>(hooks),
    decreases hooks.len(),
{
    let records = hook_bytes_of(hooks);
    if hooks.len() > 0 {
        let before = hooks.drop_last();
        assert forall|i: int| 0 <= i < before.len() implies hook_fits(#[trigger] before[i]) by {
            assert(before[i] == hooks[i]);
        }
        lemma_hooks_round_trip(before);
        assert(records.drop_last() =~= hook_bytes_of(before));
        assert(records.last() == hook_bytes(hooks.last()));
        assert(hook_fits(hooks[hooks.len() - 1]));
        lemma_hook_round_trip(hooks.last());
        assert(before.push(hooks.last()) =~= hooks);
    } else {
        assert(hooks =~= Seq::<CommitHookView>::empty());
    }
}

/// How the records of a list of hooks are written, and whether they can
/// be.
pub proof fn lemma_wire_hook_records(number: u32, hooks: Seq<CommitHookView>)
    ensures
        wire(hook_records(number, hooks)) == hooks_field(number as nat, hooks),
        1 <= number <= FIELD_NUMBER_MAX && hooks_fit(hooks) ==> all_fit(
            hook_records(number, hooks),
        ),
    decreases hooks.len(),
{
    let records = hook_records(number, hooks);
    if hooks.len() > 0 {
        let before = hooks.drop_last();
        let last = seq![bytes_is(number, hook_bytes(hooks.last()))];
        lemma_wire_hook_records(number, before);
        assert(records =~= hook_records(number, before) + last);
        lemma_wire_append(hook_records(number, before), last);
        lemma_wire_bytes_is(number, hook_bytes(hooks.last()));
    }
    if 1 <= number <= FIELD_NUMBER_MAX && hooks_fit(hooks) {
        assert forall|i: int| 0 <= i < records.len() implies field_fits(#[trigger] records[i]) by {
            assert(hook_fits(hooks[i]));
        }
    }
}

/// What is picked, under any number, from the records of a list of hooks.
pub proof fn lemma_picked_hook_records(number: u32, hooks: Seq<CommitHookView>)
    ensures
        forall|n: u32| #[trigger]
            picked(hook_records(number, hooks), n) == if n == number && hooks.len() > 0 {
                Picked {
                    bytes: Some(hook_bytes(hooks.last())),
                    varint: None,
                    every: hook_bytes_of(hooks),
                    bytes_only: true,
                    varints_only: false,
                }
            } else {
                nothing()
            },
    decreases hooks.len(),
{
    let records = hook_records(number, hooks);
    if hooks.len() > 0 {
        let before = hooks.drop_last();
        let last = seq![bytes_is(number, hook_bytes(hooks.last()))];
        lemma_picked_hook_records(number, before);
        assert(records =~= hook_records(number, before) + last);
        lemma_picked_append(hook_records(number, before), last);
        lemma_picked_bytes_is(number, hook_bytes(hooks.last()));
        assert(hook_bytes_of(before) + seq![hook_bytes(hooks.last())] =~= hook_bytes_of(hooks));
        assert(before.len() == 0 ==> seq![hook_bytes(hooks.last())] =~= hook_bytes_of(hooks));
    } else {
        assert(records =~= Seq::<WireFieldView>::empty());
        lemma_picks_of_none();
        assert forall|n: u32| #[trigger] picked(records, n) == nothing() by {
            lemma_picked_means(records, n);
        }
    }
}

/// Properties are rendered as their fields are written, one after the
/// other.
pub proof fn lemma_props_bytes_are_fields(props: BucketPropsView)
    ensures
        props_bytes(props) == wire(props_fields(props)),
        props_fit(props) ==> all_fit(props_fields(props)),
{
    reveal(props_bytes);
    reveal(props_fields);
    lemma_wire_opt_varint_is(1, props.n_val);
    lemma_wire_opt_bool_is(2, props.allow_mult);
    lemma_wire_opt_bool_is(3, props.last_write_wins);
    lemma_wire_hook_records(4, props.precommit);
    lemma_wire_opt_bool_is(5, props.has_precommit);
    lemma_wire_hook_records(6, props.postcommit);
    lemma_wire_opt_bool_is(7, props.has_postcommit);
    lemma_wire_opt_bytes_is(8, opt_modfun_record(props.chash_keyfun));
    lemma_wire_opt_bytes_is(9, opt_modfun_record(props.linkfun));
    lemma_wire_opt_varint_is(10, props.old_vclock);
    lemma_wire_opt_varint_is(11, props.young_vclock);
    lemma_wire_opt_varint_is(12, props.big_vclock);
    lemma_wire_opt_varint_is(13, props.small_vclock);
    lemma_wire_opt_varint_is(14, props.pr);
    lemma_wire_opt_varint_is(15, props.r);
    lemma_wire_opt_varint_is(16, props.w);
    lemma_wire_opt_varint_is(17, props.pw);
    lemma_wire_opt_varint_is(18, props.dw);
    lemma_wire_opt_varint_is(19, props.rw);
    lemma_wire_opt_bool_is(20, props.basic_quorum);
    lemma_wire_opt_bool_is(21, props.notfound_ok);
    lemma_wire_opt_bytes_is(22, props.backend);
    lemma_wire_opt_bool_is(23, props.search);
    lemma_wire_opt_bytes_is(25, props.search_index);
    lemma_wire_opt_bytes_is(26, props.datatype);
    lemma_wire_opt_bool_is(27, props.consistent);
    lemma_wire_opt_bool_is(28, props.write_once);
    lemma_wire_opt_varint_is(29, props.hll_precision);
    let part1 = opt_varint_is(1, props.n_val);
    let part2 = opt_bool_is(2, props.allow_mult);
    let part3 = opt_bool_is(3, props.last_write_wins);
    let part4 = hook_records(4, props.precommit);
    let part5 = opt_bool_is(5, props.has_precommit);
    let part6 = hook_records(6, props.postcommit);
    let part7 = opt_bool_is(7, props.has_postcommit);
    let part8 = opt_bytes_is(8, opt_modfun_record(props.chash_keyfun));
    let part9 = opt_bytes_is(9, opt_modfun_record(props.linkfun));
    let part10 = opt_varint_is(10, props.old_vclock);
    let part11 = opt_varint_is(11, props.young_vclock);
    let part12 = opt_varint_is(12, props.big_vclock);
    let part13 = opt_varint_is(13, props.small_vclock);
    let part14 = opt_varint_is(14, props.pr);
    let part15 = opt_varint_is(15, props.r);
    let part16 = opt_varint_is(16, props.w);
    let part17 = opt_varint_is(17, props.pw);
    let part18 = opt_varint_is(18, props.dw);
    let part19 = opt_varint_is(19, props.rw);
    let part20 = opt_bool_is(20, props.basic_quorum);
    let part21 = opt_bool_is(21, props.notfound_ok);
    let part22 = opt_bytes_is(22, props.backend);
    let part23 = opt_bool_is(23, props.search);
    let part25 = opt_bytes_is(25, props.search_index);
    let part26 = opt_bytes_is(26, props.datatype);
    let part27 = opt_bool_is(27, props.consistent);
    let part28 = opt_bool_is(28, props.write_once);
    let part29 = opt_varint_is(29, props.hll_precision);
    let run1 = part1;
    let run2 = run1 + part2;
    lemma_wire_append(run1, part2);
    let run3 = run2 + part3;
    lemma_wire_append(run2, part3);
    let run4 = run3 + part4;
    lemma_wire_append(run3, part4);
    let run5 = run4 + part5;
    lemma_wire_append(run4, part5);
    let run6 = run5 + part6;
    lemma_wire_append(run5, part6);
    let run7 = run6 + part7;
    lemma_wire_append(run6, part7);
    let run8 = run7 + part8;
    lemma_wire_append(run7, part8);
    let run9 = run8 + part9;
    lemma_wire_append(run8, part9);
    let run10 = run9 + part10;
    lemma_wire_append(run9, part10);
    let run11 = run10 + part11;
    lemma_wire_append(run10, part11);
    let run12 = run11 + part12;
    lemma_wire_append(run11, part12);
    let run13 = run12 + part13;
    lemma_wire_append(run12, part13);
    let run14 = run13 + part14;
    lemma_wire_append(run13, part14);
    let run15 = run14 + part15;
    lemma_wire_append(run14, part15);
    let run16 = run15 + part16;
    lemma_wire_append(run15, part16);
    let run17 = run16 + part17;
    lemma_wire_append(run16, part17);
    let run18 = run17 + part18;
    lemma_wire_append(run17, part18);
    let run19 = run18 + part19;
    lemma_wire_append(run18, part19);
    let run20 = run19 + part20;
    lemma_wire_append(run19, part20);
    let run21 = run20 + part21;
    lemma_wire_append(run20, part21);
    let run22 = run21 + part22;
    lemma_wire_append(run21, part22);
    let run23 = run22 + part23;
    lemma_wire_append(run22, part23);
    let run25 = run23 + part25;
    lemma_wire_append(run23, part25);
    let run26 = run25 + part26;
    lemma_wire_append(run25, part26);
    let run27 = run26 + part27;
    lemma_wire_append(run26, part27);
    let run28 = run27 + part28;
    lemma_wire_append(run27, part28);
    let run29 = run28 + part29;
    lemma_wire_append(run28, part29);
}

/// What is picked from the records of a list of hooks under their number.
pub open spec fn hooks_picked(hooks: Seq<CommitHookView>) -> Picked {
    if hooks.len() > 0 {
        Picked {
            bytes: Some(hook_bytes(hooks.last())),
            varint: None,
            every: hook_bytes_of(hooks),
            bytes_only: true,
            varints_only: false,
        }
    } else {
        nothing()
    }
}

/// What is picked from an optional number under its field number.
pub open spec fn varint_picked(value: Option<u32>) -> Picked {
    match value {
        Some(v) => one_varint(v as u64),
        None => nothing(),
    }
}

/// What is picked from an optional `bool` under its field number.
pub open spec fn bool_picked(value: Option<bool>) -> Picked {
    match value {
        Some(v) => one_varint(flag(v)),
        None => nothing(),
    }
}

/// What is picked from an optional run of bytes under its field number.
pub open spec fn bytes_picked(value: Option<Seq<u8>>) -> Picked {
    match value {
        Some(data) => one_bytes(data),
        None => nothing(),
    }
}

/// What is picked from the fields of properties under each number: what
/// the property of that number put there, and nothing else.
#[verifier::rlimit(50)]
pub proof fn lemma_props_picked(props: BucketPropsView)
    ensures
        picked(props_fields(props), 1) == varint_picked(props.n_val),
        picked(props_fields(props), 2) == bool_picked(props.allow_mult),
        picked(props_fields(props), 3) == bool_picked(props.last_write_wins),
        picked(props_fields(props), 4) == hooks_picked(props.precommit),
        picked(props_fields(props), 5) == bool_picked(props.has_precommit),
        picked(props_fields(props), 6) == hooks_picked(props.postcommit),
        picked(props_fields(props), 7) == bool_picked(props.has_postcommit),
        picked(props_fields(props), 8) == bytes_picked(opt_modfun_record(props.chash_keyfun)),
        picked(props_fields(props), 9) == bytes_picked(opt_modfun_record(props.linkfun)),
        picked(props_fields(props), 10) == varint_picked(props.old_vclock),
        picked(props_fields(props), 11) == varint_picked(props.young_vclock),
        picked(props_fields(props), 12) == varint_picked(props.big_vclock),
        picked(props_fields(props), 13) == varint_picked(props.small_vclock),
        picked(props_fields(props), 14) == varint_picked(props.pr),
        picked(props_fields(props), 15) == varint_picked(props.r),
        picked(props_fields(props), 16) == varint_picked(props.w),
        picked(props_fields(props), 17) == varint_picked(props.pw),
        picked(props_fields(props), 18) == varint_picked(props.dw),
        picked(props_fields(props), 19) == varint_picked(props.rw),
        picked(props_fields(props), 20) == bool_picked(props.basic_quorum),
        picked(props_fields(props), 21) == bool_picked(props.notfound_ok),
        picked(props_fields(props), 22) == bytes_picked(props.backend),
        picked(props_fields(props), 23) == bool_picked(props.search),
        picked(props_fields(props), 25) == bytes_picked(props.search_index),
        picked(props_fields(props), 26) == bytes_picked(props.datatype),
        picked(props_fields(props), 27) == bool_picked(props.consistent),
        picked(props_fields(props), 28) == bool_picked(props.write_once),
        picked(props_fields(props), 29) == varint_picked(props.hll_precision),
{
    reveal(props_fields);
    lemma_picked_opt_varint_is(1, props.n_val);
    lemma_picked_opt_bool_is(2, props.allow_mult);
    lemma_picked_opt_bool_is(3, props.last_write_wins);
    lemma_picked_hook_records(4, props.precommit);
    lemma_picked_opt_bool_is(5, props.has_precommit);
    lemma_picked_hook_records(6, props.postcommit);
    lemma_picked_opt_bool_is(7, props.has_postcommit);
    lemma_picked_opt_bytes_is(8, opt_modfun_record(props.chash_keyfun));
    lemma_picked_opt_bytes_is(9, opt_modfun_record(props.linkfun));
    lemma_picked_opt_varint_is(10, props.old_vclock);
    lemma_picked_opt_varint_is(11, props.young_vclock);
    lemma_picked_opt_varint_is(12, props.big_vclock);
    lemma_picked_opt_varint_is(13, props.small_vclock);
    lemma_picked_opt_varint_is(14, props.pr);
    lemma_picked_opt_varint_is(15, props.r);
    lemma_picked_opt_varint_is(16, props.w);
    lemma_picked_opt_varint_is(17, props.pw);
    lemma_picked_opt_varint_is(18, props.dw);
    lemma_picked_opt_varint_is(19, props.rw);
    lemma_picked_opt_bool_is(20, props.basic_quorum);
    lemma_picked_opt_bool_is(21, props.notfound_ok);
    lemma_picked_opt_bytes_is(22, props.backend);
    lemma_picked_opt_bool_is(23, props.search);
    lemma_picked_opt_bytes_is(25, props.search_index);
    lemma_picked_opt_bytes_is(26, props.datatype);
    lemma_picked_opt_bool_is(27, props.consistent);
    lemma_picked_opt_bool_is(28, props.write_once);
    lemma_picked_opt_varint_is(29, props.hll_precision);
    let part1 = opt_varint_is(1, props.n_val);
    let part2 = opt_bool_is(2, props.allow_mult);
    let part3 = opt_bool_is(3, props.last_write_wins);
    let part4 = hook_records(4, props.precommit);
    let part5 = opt_bool_is(5, props.has_precommit);
    let part6 = hook_records(6, props.postcommit);
    let part7 = opt_bool_is(7, props.has_postcommit);
    let part8 = opt_bytes_is(8, opt_modfun_record(props.chash_keyfun));
    let part9 = opt_bytes_is(9, opt_modfun_record(props.linkfun));
    let part10 = opt_varint_is(10, props.old_vclock);
    let part11 = opt_varint_is(11, props.young_vclock);
    let part12 = opt_varint_is(12, props.big_vclock);
    let part13 = opt_varint_is(13, props.small_vclock);
    let part14 = opt_varint_is(14, props.pr);
    let part15 = opt_varint_is(15, props.r);
    let part16 = opt_varint_is(16, props.w);
    let part17 = opt_varint_is(17, props.pw);
    let part18 = opt_varint_is(18, props.dw);
    let part19 = opt_varint_is(19, props.rw);
    let part20 = opt_bool_is(20, props.basic_quorum);
    let part21 = opt_bool_is(21, props.notfound_ok);
    let part22 = opt_bytes_is(22, props.backend);
    let part23 = opt_bool_is(23, props.search);
    let part25 = opt_bytes_is(25, props.search_index);
    let part26 = opt_bytes_is(26, props.datatype);
    let part27 = opt_bool_is(27, props.consistent);
    let part28 = opt_bool_is(28, props.write_once);
    let part29 = opt_varint_is(29, props.hll_precision);
    let run1 = part1;
    let run2 = run1 + part2;
    lemma_picked_append(run1, part2);
    let run3 = run2 + part3;
    lemma_picked_append(run2, part3);
    let run4 = run3 + part4;
    lemma_picked_append(run3, part4);
    let run5 = run4 + part5;
    lemma_picked_append(run4, part5);
    let run6 = run5 + part6;
    lemma_picked_append(run5, part6);
    let run7 = run6 + part7;
    lemma_picked_append(run6, part7);
    let run8 = run7 + part8;
    lemma_picked_append(run7, part8);
    let run9 = run8 + part9;
    lemma_picked_append(run8, part9);
    let run10 = run9 + part10;
    lemma_picked_append(run9, part10);
    let run11 = run10 + part11;
    lemma_picked_append(run10, part11);
    let run12 = run11 + part12;
    lemma_picked_append(run11, part12);
    let run13 = run12 + part13;
    lemma_picked_append(run12, part13);
    let run14 = run13 + part14;
    lemma_picked_append(run13, part14);
    let run15 = run14 + part15;
    lemma_picked_append(run14, part15);
    let run16 = run15 + part16;
    lemma_picked_append(run15, part16);
    let run17 = run16 + part17;
    lemma_picked_append(run16, part17);
    let run18 = run17 + part18;
    lemma_picked_append(run17, part18);
    let run19 = run18 + part19;
    lemma_picked_append(run18, part19);
    let run20 = run19 + part20;
    lemma_picked_append(run19, part20);
    let run21 = run20 + part21;
    lemma_picked_append(run20, part21);
    let run22 = run21 + part22;
    lemma_picked_append(run21, part22);
    let run23 = run22 + part23;
    lemma_picked_append(run22, part23);
    let run25 = run23 + part25;
    lemma_picked_append(run23, part25);
    let run26 = run25 + part26;
    lemma_picked_append(run25, part26);
    let run27 = run26 + part27;
    lemma_picked_append(run26, part27);
    let run28 = run27 + part28;
    lemma_picked_append(run27, part28);
    let run29 = run28 + part29;
    lemma_picked_append(run28, part29);
}

/// Every field of properties has the wire type of its number.
pub proof fn lemma_props_wire_ok(props: BucketPropsView)
    ensures
        props_wire_ok(props_fields(props)),
{
    reveal(props_wire_ok);
    let fields = props_fields(props);
    lemma_props_picked(props);
    lemma_picked_means(fields, 1);
    lemma_picked_means(fields, 2);
    lemma_picked_means(fields, 3);
    lemma_picked_means(fields, 4);
    lemma_picked_means(fields, 5);
    lemma_picked_means(fields, 6);
    lemma_picked_means(fields, 7);
    lemma_picked_means(fields, 8);
    lemma_picked_means(fields, 9);
    lemma_picked_means(fields, 10);
    lemma_picked_means(fields, 11);
    lemma_picked_means(fields, 12);
    lemma_picked_means(fields, 13);
    lemma_picked_means(fields, 14);
    lemma_picked_means(fields, 15);
    lemma_picked_means(fields, 16);
    lemma_picked_means(fields, 17);
    lemma_picked_means(fields, 18);
    lemma_picked_means(fields, 19);
    lemma_picked_means(fields, 20);
    lemma_picked_means(fields, 21);
    lemma_picked_means(fields, 22);
    lemma_picked_means(fields, 23);
    lemma_picked_means(fields, 25);
    lemma_picked_means(fields, 26);
    lemma_picked_means(fields, 27);
    lemma_picked_means(fields, 28);
    lemma_picked_means(fields, 29);
}

/// Every property that is a number, a `bool` or a text is read from the
/// fields of properties as it was set, or as unset.
pub proof fn lemma_props_scalars_are_read(props: BucketPropsView)
    ensures
        as_u32(last_varint(props_fields(props), 1)) == props.n_val,
        as_bool(last_varint(props_fields(props), 2)) == props.allow_mult,
        as_bool(last_varint(props_fields(props), 3)) == props.last_write_wins,
        as_bool(last_varint(props_fields(props), 5)) == props.has_precommit,
        as_bool(last_varint(props_fields(props), 7)) == props.has_postcommit,
        as_u32(last_varint(props_fields(props), 10)) == props.old_vclock,
        as_u32(last_varint(props_fields(props), 11)) == props.young_vclock,
        as_u32(last_varint(props_fields(props), 12)) == props.big_vclock,
        as_u32(last_varint(props_fields(props), 13)) == props.small_vclock,
        as_u32(last_varint(props_fields(props), 14)) == props.pr,
        as_u32(last_varint(props_fields(props), 15)) == props.r,
        as_u32(last_varint(props_fields(props), 16)) == props.w,
        as_u32(last_varint(props_fields(props), 17)) == props.pw,
        as_u32(last_varint(props_fields(props), 18)) == props.dw,
        as_u32(last_varint(props_fields(props), 19)) == props.rw,
        as_bool(last_varint(props_fields(props), 20)) == props.basic_quorum,
        as_bool(last_varint(props_fields(props), 21)) == props.notfound_ok,
        last_bytes(props_fields(props), 22) == props.backend,
        as_bool(last_varint(props_fields(props), 23)) == props.search,
        last_bytes(props_fields(props), 25) == props.search_index,
        last_bytes(props_fields(props), 26) == props.datatype,
        as_bool(last_varint(props_fields(props), 27)) == props.consistent,
        as_bool(last_varint(props_fields(props), 28)) == props.write_once,
        as_u32(last_varint(props_fields(props), 29)) == props.hll_precision,
{
    let fields = props_fields(props);
    lemma_props_picked(props);
    lemma_picked_opt_varint_is(1, props.n_val);
    lemma_picked_opt_bool_is(2, props.allow_mult);
    lemma_picked_means(fields, 1);
    lemma_picked_means(fields, 2);
    lemma_picked_means(fields, 3);
    lemma_picked_means(fields, 5);
    lemma_picked_means(fields, 7);
    lemma_picked_means(fields, 10);
    lemma_picked_means(fields, 11);
    lemma_picked_means(fields, 12);
    lemma_picked_means(fields, 13);
    lemma_picked_means(fields, 14);
    lemma_picked_means(fields, 15);
    lemma_picked_means(fields, 16);
    lemma_picked_means(fields, 17);
    lemma_picked_means(fields, 18);
    lemma_picked_means(fields, 19);
    lemma_picked_means(fields, 20);
    lemma_picked_means(fields, 21);
    lemma_picked_means(fields, 22);
    lemma_picked_means(fields, 23);
    lemma_picked_means(fields, 25);
    lemma_picked_means(fields, 26);
    lemma_picked_means(fields, 27);
    lemma_picked_means(fields, 28);
    lemma_picked_means(fields, 29);
}

/// The hooks and the pairs of module and function are read from the fields
/// of properties as they were set.
pub proof fn lemma_props_records_are_read(props: BucketPropsView)
    requires
        props_fit(props),
    ensures
        hooks_of(every_bytes(props_fields(props), 4)) == Ok::<Seq<CommitHookView>, SchemaError>(
            props.precommit,
        ),
        hooks_of(every_bytes(props_fields(props), 6)) == Ok::<Seq<CommitHookView>, SchemaError>(
            props.postcommit,
        ),
        opt_modfun_of(last_bytes(props_fields(props), 8)) == Ok::<
            Option<(Seq<u8>, Seq<u8>)>,
            SchemaError,
        >(props.chash_keyfun),
        opt_modfun_of(last_bytes(props_fields(props), 9)) == Ok::<
            Option<(Seq<u8>, Seq<u8>)>,
            SchemaError,
        >(props.linkfun),
{
    let fields = props_fields(props);
    lemma_props_picked(props);
    lemma_picked_means(fields, 4);
    lemma_picked_means(fields, 6);
    lemma_picked_means(fields, 8);
    lemma_picked_means(fields, 9);
    assert(hook_bytes_of(props.precommit) =~= every_bytes(fields, 4));
    assert(hook_bytes_of(props.postcommit) =~= every_bytes(fields, 6));
    lemma_hooks_round_trip(props.precommit);
    lemma_hooks_round_trip(props.postcommit);
    match props.chash_keyfun {
        Some((module, function)) => lemma_modfun_round_trip(module, function),
        None => {},
    }
    match props.linkfun {
        Some((module, function)) => lemma_modfun_round_trip(module, function),
        None => {},
    }
}

/// The fields of properties are read as those properties.
pub proof fn lemma_props_fields_are_read(props: BucketPropsView)
    requires
        props_fit(props),
    ensures
        self::props(props_fields(props)) == Ok::<BucketPropsView, SchemaError>(props),
{
    reveal(self::props);
    lemma_props_wire_ok(props);
    lemma_props_scalars_are_read(props);
    lemma_props_records_are_read(props);
}

/// Properties come back as they went out: properties that can be rendered
/// are read from their rendering as the same properties, every one that was
/// set with the value it was set to, and every other one unset.
pub proof fn lemma_props_round_trip(props: BucketPropsView)
    requires
        props_fit(props),
    ensures
        props_of(props_bytes(props)) == Ok::<BucketPropsView, SchemaError>(props),
{
    lemma_props_bytes_are_fields(props);
    lemma_props_fields_are_read(props);
    lemma_fields_of_wire(props_fields(props));
}

/// What was set is what is got: a server that answers with the record of
/// properties that a request to set them carried gives back those
/// properties.
pub proof fn lemma_set_then_get(name: Seq<u8>, props: BucketPropsView)
    requires
        set_props_payload(name, props) is Ok,
    ensures
        get_bucket_resp_of(bytes_field(1, props_bytes(props))) == Ok::<
            BucketPropsView,
            SchemaError,
        >(props),
{
    let record = props_bytes(props);
    let outer = seq![bytes_is(1, record)];
    lemma_props_round_trip(props);
    lemma_wire_bytes_is(1, record);
    lemma_fields_of_wire(outer);
    lemma_picked_bytes_is(1, record);
    lemma_picked_means(outer, 1);
}

} // verus!
