use riak::bucket::{keep_last_of_each_name, same_bytes, BucketProps, CommitHook};
use riak::errors::ServerError;
use riak::object::{
    DeleteObjectReq, FetchObjectReq, FetchObjectResp, ObjectContent, StoreObjectReq,
};
use riak::preflist::PreflistItem;
use riak::yokozuna::{SearchQuery, YokozunaIndex};

#[test]
fn server_error_keeps_code_and_data() {
    let error = ServerError::new(42, b"bad".to_vec());
    assert_eq!(error.code(), 42);
    assert_eq!(error.data(), &b"bad".to_vec());
    let copy = error.clone();
    assert_eq!(copy.code(), 42);
    assert_eq!(copy.data(), &b"bad".to_vec());
}

#[test]
fn preflist_item_is_what_it_was_made_of() {
    let item = PreflistItem::new(-7, "riak@10.0.0.2", true);
    assert_eq!(item.partition, -7);
    assert_eq!(item.node, "riak@10.0.0.2");
    assert!(item.is_primary);
    let copy = item.clone();
    assert_eq!((copy.partition, copy.node.as_str(), copy.is_primary), (-7, "riak@10.0.0.2", true));
}

#[test]
fn new_properties_have_nothing_set() {
    let props = BucketProps::new();
    assert_eq!(props.get_allow_mult(), None);
    assert_eq!(props.get_backend(), None);
    assert_eq!(props.get_basic_quorum(), None);
    assert_eq!(props.get_big_vclock(), None);
    assert_eq!(props.get_chash_keyfun(), None);
    assert_eq!(props.get_consistent(), None);
    assert_eq!(props.get_datatype(), None);
    assert_eq!(props.get_dw(), None);
    assert_eq!(props.get_has_postcommit(), None);
    assert_eq!(props.get_has_precommit(), None);
    assert_eq!(props.get_hll_precision(), None);
    assert_eq!(props.get_last_write_wins(), None);
    assert_eq!(props.get_linkfun(), None);
    assert_eq!(props.get_notfound_ok(), None);
    assert_eq!(props.get_n_val(), None);
    assert_eq!(props.get_old_vclock(), None);
    assert!(props.get_postcommit().is_none());
    assert!(props.get_precommit().is_none());
    assert_eq!(props.get_pr(), None);
    assert_eq!(props.get_pw(), None);
    assert_eq!(props.get_r(), None);
    assert_eq!(props.get_rw(), None);
    assert_eq!(props.get_search_index(), None);
    assert_eq!(props.get_search(), None);
    assert_eq!(props.get_small_vclock(), None);
    assert_eq!(props.get_write_once(), None);
    assert_eq!(props.get_w(), None);
    assert_eq!(props.get_young_vclock(), None);
}

#[test]
fn properties_are_got_as_they_were_set() {
    let mut props = BucketProps::new();
    props.set_allow_mult(true);
    props.set_backend(b"bitcask".to_vec());
    props.set_basic_quorum(false);
    props.set_big_vclock(1);
    props.set_chash_keyfun(b"m".to_vec(), b"f".to_vec());
    props.set_consistent(true);
    props.set_datatype(b"set".to_vec());
    props.set_dw(2);
    props.set_has_postcommit(false);
    props.set_has_precommit(true);
    props.set_hll_precision(3);
    props.set_last_write_wins(true);
    props.set_linkfun(b"lm".to_vec(), b"lf".to_vec());
    props.set_notfound_ok(true);
    props.set_n_val(4);
    props.set_old_vclock(5);
    props.set_pr(6);
    props.set_pw(7);
    props.set_r(8);
    props.set_rw(9);
    props.set_search_index(b"idx".to_vec());
    props.set_search(true);
    props.set_small_vclock(10);
    props.set_write_once(true);
    props.set_w(11);
    props.set_young_vclock(12);
    assert_eq!(props.get_allow_mult(), Some(true));
    assert_eq!(props.get_backend(), Some(b"bitcask".to_vec()));
    assert_eq!(props.get_basic_quorum(), Some(false));
    assert_eq!(props.get_big_vclock(), Some(1));
    assert_eq!(props.get_chash_keyfun(), Some((b"m".to_vec(), b"f".to_vec())));
    assert_eq!(props.get_consistent(), Some(true));
    assert_eq!(props.get_datatype(), Some(b"set".to_vec()));
    assert_eq!(props.get_dw(), Some(2));
    assert_eq!(props.get_has_postcommit(), Some(false));
    assert_eq!(props.get_has_precommit(), Some(true));
    assert_eq!(props.get_hll_precision(), Some(3));
    assert_eq!(props.get_last_write_wins(), Some(true));
    assert_eq!(props.get_linkfun(), Some((b"lm".to_vec(), b"lf".to_vec())));
    assert_eq!(props.get_notfound_ok(), Some(true));
    assert_eq!(props.get_n_val(), Some(4));
    assert_eq!(props.get_old_vclock(), Some(5));
    assert_eq!(props.get_pr(), Some(6));
    assert_eq!(props.get_pw(), Some(7));
    assert_eq!(props.get_r(), Some(8));
    assert_eq!(props.get_rw(), Some(9));
    assert_eq!(props.get_search_index(), Some(b"idx".to_vec()));
    assert_eq!(props.get_search(), Some(true));
    assert_eq!(props.get_small_vclock(), Some(10));
    assert_eq!(props.get_write_once(), Some(true));
    assert_eq!(props.get_w(), Some(11));
    assert_eq!(props.get_young_vclock(), Some(12));
    let copy = props.clone();
    assert_eq!(copy.get_backend(), Some(b"bitcask".to_vec()));
    assert_eq!(copy.get_young_vclock(), Some(12));
}

#[test]
fn setting_one_property_leaves_the_others() {
    let mut props = BucketProps::new();
    props.set_r(1);
    props.set_w(2);
    props.set_r(3);
    assert_eq!(props.get_r(), Some(3));
    assert_eq!(props.get_w(), Some(2));
    assert_eq!(props.get_pr(), None);
}

#[test]
fn hooks_keep_their_order() {
    let hook = |name: &[u8]| CommitHook {
        name: name.to_vec(),
        module: b"m".to_vec(),
        function: b"f".to_vec(),
    };
    let mut props = BucketProps::new();
    props.set_precommit(vec![hook(b"b"), hook(b"a"), hook(b"b")]);
    let names: Vec<Vec<u8>> = props.get_precommit().unwrap().into_iter().map(|h| h.name).collect();
    assert_eq!(names, vec![b"b".to_vec(), b"a".to_vec(), b"b".to_vec()]);
    assert!(props.get_postcommit().is_none());
    props.set_postcommit(vec![hook(b"z")]);
    assert_eq!(props.get_postcommit().unwrap()[0].name, b"z".to_vec());
    props.set_precommit(Vec::new());
    assert!(props.get_precommit().is_none());
}

#[test]
fn last_hook_of_each_name_is_kept() {
    let hook = |name: &[u8], module: &[u8]| CommitHook {
        name: name.to_vec(),
        module: module.to_vec(),
        function: b"f".to_vec(),
    };
    let hooks = vec![
        hook(b"a", b"1"),
        hook(b"b", b"2"),
        hook(b"a", b"3"),
        hook(b"c", b"4"),
        hook(b"b", b"5"),
        hook(b"", b"6"),
    ];
    let kept: Vec<(Vec<u8>, Vec<u8>)> =
        keep_last_of_each_name(&hooks).into_iter().map(|h| (h.name, h.module)).collect();
    assert_eq!(
        kept,
        vec![
            (b"a".to_vec(), b"3".to_vec()),
            (b"c".to_vec(), b"4".to_vec()),
            (b"b".to_vec(), b"5".to_vec()),
            (b"".to_vec(), b"6".to_vec()),
        ]
    );
    assert!(keep_last_of_each_name(&Vec::new()).is_empty());
    let distinct = vec![hook(b"x", b"1"), hook(b"y", b"2")];
    let kept: Vec<Vec<u8>> = keep_last_of_each_name(&distinct).into_iter().map(|h| h.name).collect();
    assert_eq!(kept, vec![b"x".to_vec(), b"y".to_vec()]);
}

#[test]
fn bytes_are_compared_one_by_one() {
    assert!(same_bytes(b"", b""));
    assert!(same_bytes(b"abc", b"abc"));
    assert!(!same_bytes(b"abc", b"abd"));
    assert!(!same_bytes(b"abc", b"ab"));
    assert!(!same_bytes(b"", b"a"));
}

#[test]
fn delete_request_settings() {
    let mut req = DeleteObjectReq::new(b"testbucket".to_vec(), b"testkey".to_vec());
    assert_eq!(req.get_bucket(), b"testbucket".to_vec());
    assert_eq!(req.get_key(), b"testkey".to_vec());
    assert_eq!(req.get_bucket_type(), None);
    assert_eq!(req.get_dw(), None);
    assert_eq!(req.get_pr(), None);
    assert_eq!(req.get_pw(), None);
    assert_eq!(req.get_rw(), None);
    assert_eq!(req.get_r(), None);
    assert_eq!(req.get_w(), None);
    assert_eq!(req.get_n_val(), None);
    assert_eq!(req.get_sloppy_quorum(), None);
    assert_eq!(req.get_timeout(), None);
    assert_eq!(req.get_vclock(), None);
    req.set_bucket_type(b"t".to_vec());
    req.set_bucket(b"b".to_vec());
    req.set_key(b"k".to_vec());
    req.set_dw(3);
    req.set_pr(4);
    req.set_pw(5);
    req.set_rw(6);
    req.set_r(7);
    req.set_w(8);
    req.set_n_val(9);
    req.set_sloppy_quorum(true);
    req.set_timeout(10);
    req.set_vclock(b"vc".to_vec());
    assert_eq!(req.get_bucket_type(), Some(b"t".to_vec()));
    assert_eq!(req.get_bucket(), b"b".to_vec());
    assert_eq!(req.get_key(), b"k".to_vec());
    assert_eq!(req.get_dw(), Some(3));
    assert_eq!(req.get_pr(), Some(4));
    assert_eq!(req.get_pw(), Some(5));
    assert_eq!(req.get_rw(), Some(6));
    assert_eq!(req.get_r(), Some(7));
    assert_eq!(req.get_w(), Some(8));
    assert_eq!(req.get_n_val(), Some(9));
    assert_eq!(req.get_sloppy_quorum(), Some(true));
    assert_eq!(req.get_timeout(), Some(10));
    assert_eq!(req.get_vclock(), Some(b"vc".to_vec()));
    assert_eq!(req.clone().get_vclock(), Some(b"vc".to_vec()));
}

#[test]
fn store_request_settings() {
    let mut req = StoreObjectReq::new(b"testbucket".to_vec(), ObjectContent::new(b"v".to_vec()));
    assert_eq!(req.get_bucket(), b"testbucket".to_vec());
    assert_eq!(req.get_content().get_value(), b"v".to_vec());
    assert_eq!(req.get_key(), None);
    assert_eq!(req.get_vclock(), None);
    assert_eq!(req.get_w(), None);
    assert_eq!(req.get_dw(), None);
    assert_eq!(req.get_return_body(), None);
    assert_eq!(req.get_pw(), None);
    assert_eq!(req.get_if_not_modified(), None);
    assert_eq!(req.get_if_none_match(), None);
    assert_eq!(req.get_return_head(), None);
    assert_eq!(req.get_timeout(), None);
    assert_eq!(req.get_asis(), None);
    assert_eq!(req.get_sloppy_quorum(), None);
    assert_eq!(req.get_n_val(), None);
    assert_eq!(req.get_bucket_type(), None);
    req.set_bucket(b"b".to_vec());
    req.set_content(ObjectContent::new(b"w".to_vec()));
    req.set_key(b"testkey".to_vec());
    req.set_vclock(b"vc".to_vec());
    req.set_w(1);
    req.set_dw(2);
    req.set_return_body(true);
    req.set_pw(3);
    req.set_if_not_modified(true);
    req.set_if_none_match(false);
    req.set_return_head(true);
    req.set_timeout(4);
    req.set_asis(false);
    req.set_sloppy_quorum(true);
    req.set_n_val(5);
    req.set_bucket_type(b"t".to_vec());
    assert_eq!(req.get_bucket(), b"b".to_vec());
    assert_eq!(req.get_content().get_value(), b"w".to_vec());
    assert_eq!(req.get_key(), Some(b"testkey".to_vec()));
    assert_eq!(req.get_vclock(), Some(b"vc".to_vec()));
    assert_eq!(req.get_w(), Some(1));
    assert_eq!(req.get_dw(), Some(2));
    assert_eq!(req.get_return_body(), Some(true));
    assert_eq!(req.get_pw(), Some(3));
    assert_eq!(req.get_if_not_modified(), Some(true));
    assert_eq!(req.get_if_none_match(), Some(false));
    assert_eq!(req.get_return_head(), Some(true));
    assert_eq!(req.get_timeout(), Some(4));
    assert_eq!(req.get_asis(), Some(false));
    assert_eq!(req.get_sloppy_quorum(), Some(true));
    assert_eq!(req.get_n_val(), Some(5));
    assert_eq!(req.get_bucket_type(), Some(b"t".to_vec()));
    assert_eq!(req.clone().get_key(), Some(b"testkey".to_vec()));
}

#[test]
fn fetch_request_settings() {
    let mut req = FetchObjectReq::new(b"testbucket".to_vec(), b"testkey".to_vec());
    assert_eq!(req.get_bucket(), b"testbucket".to_vec());
    assert_eq!(req.get_key(), b"testkey".to_vec());
    assert_eq!(req.get_r(), None);
    assert_eq!(req.get_if_modified(), None);
    assert_eq!(req.get_bucket_type(), None);
    req.set_bucket(b"b".to_vec());
    req.set_key(b"k".to_vec());
    req.set_r(1);
    req.set_pr(2);
    req.set_basic_quorum(true);
    req.set_notfound_ok(false);
    req.set_if_modified(b"vc".to_vec());
    req.set_head(true);
    req.set_deletedvclock(false);
    req.set_timeout(3);
    req.set_sloppy_quorum(true);
    req.set_n_val(4);
    req.set_bucket_type(b"t".to_vec());
    assert_eq!(req.get_bucket(), b"b".to_vec());
    assert_eq!(req.get_key(), b"k".to_vec());
    assert_eq!(req.get_r(), Some(1));
    assert_eq!(req.get_pr(), Some(2));
    assert_eq!(req.get_basic_quorum(), Some(true));
    assert_eq!(req.get_notfound_ok(), Some(false));
    assert_eq!(req.get_if_modified(), Some(b"vc".to_vec()));
    assert_eq!(req.get_head(), Some(true));
    assert_eq!(req.get_deletedvclock(), Some(false));
    assert_eq!(req.get_timeout(), Some(3));
    assert_eq!(req.get_sloppy_quorum(), Some(true));
    assert_eq!(req.get_n_val(), Some(4));
    assert_eq!(req.get_bucket_type(), Some(b"t".to_vec()));
    assert_eq!(req.clone().get_key(), b"k".to_vec());
}

#[test]
fn fetch_response_holds_copies() {
    let siblings = vec![ObjectContent::new(b"one".to_vec()), ObjectContent::new(b"two".to_vec())];
    let mut resp = FetchObjectResp::new(&siblings, b"vc");
    assert_eq!(resp.get_content().len(), 2);
    assert_eq!(resp.get_content()[1].get_value(), b"two".to_vec());
    assert_eq!(resp.get_vclock(), b"vc".to_vec());
    assert_eq!(resp.get_unchanged(), None);
    resp.set_content(vec![ObjectContent::new(b"three".to_vec())]);
    resp.set_vclock(b"vd".to_vec());
    resp.set_unchanged(true);
    assert_eq!(resp.get_content().len(), 1);
    assert_eq!(resp.get_content()[0].get_value(), b"three".to_vec());
    assert_eq!(resp.get_vclock(), b"vd".to_vec());
    assert_eq!(resp.get_unchanged(), Some(true));
    assert_eq!(siblings.len(), 2);
    assert_eq!(resp.clone().get_vclock(), b"vd".to_vec());
}

#[test]
fn content_metadata() {
    let mut content = ObjectContent::new("This is test data!".as_bytes().to_vec());
    assert_eq!(content.get_value(), b"This is test data!".to_vec());
    assert_eq!(content.get_content_type(), None);
    assert_eq!(content.get_charset(), None);
    assert_eq!(content.get_content_encoding(), None);
    assert_eq!(content.get_vtag(), None);
    assert_eq!(content.get_last_mod(), None);
    assert_eq!(content.get_last_mod_usecs(), None);
    assert_eq!(content.get_deleted(), None);
    content.set_value(b"v".to_vec());
    content.set_content_type(b"text/plain".to_vec());
    content.set_charset(b"utf-8".to_vec());
    content.set_content_encoding(b"gzip".to_vec());
    content.set_vtag(b"tag");
    content.set_last_mod(1);
    content.set_last_mod_usecs(2);
    content.set_deleted(true);
    assert_eq!(content.get_value(), b"v".to_vec());
    assert_eq!(content.get_content_type(), Some(b"text/plain".to_vec()));
    assert_eq!(content.get_charset(), Some(b"utf-8".to_vec()));
    assert_eq!(content.get_content_encoding(), Some(b"gzip".to_vec()));
    assert_eq!(content.get_vtag(), Some(b"tag".to_vec()));
    assert_eq!(content.get_last_mod(), Some(1));
    assert_eq!(content.get_last_mod_usecs(), Some(2));
    assert_eq!(content.get_deleted(), Some(true));
    assert_eq!(content.clone().get_vtag(), Some(b"tag".to_vec()));
}

#[test]
fn index_settings() {
    let mut index = YokozunaIndex::new(b"myindex".to_vec());
    assert_eq!(index.get_name(), b"myindex".to_vec());
    assert_eq!(index.get_schema(), None);
    assert_eq!(index.get_n_val(), None);
    index.set_name(b"other".to_vec());
    index.set_schema(b"schedule".to_vec());
    index.set_n_val(3);
    assert_eq!(index.get_name(), b"other".to_vec());
    assert_eq!(index.get_schema(), Some(b"schedule".to_vec()));
    assert_eq!(index.get_n_val(), Some(3));
    assert_eq!(index.clone().get_name(), b"other".to_vec());
}

#[test]
fn query_settings() {
    let mut query = SearchQuery::new(b"name:*".to_vec(), b"myindex".to_vec());
    assert_eq!(query.get_q(), b"name:*".to_vec());
    assert_eq!(query.get_index(), b"myindex".to_vec());
    assert_eq!(query.get_rows(), None);
    assert_eq!(query.get_start(), None);
    assert_eq!(query.get_sort(), None);
    assert_eq!(query.get_filter(), None);
    assert_eq!(query.get_df(), None);
    assert_eq!(query.get_op(), None);
    assert_eq!(query.get_fl(), None);
    assert_eq!(query.get_presort(), None);
    query.set_q(b"q".to_vec());
    query.set_index(b"i".to_vec());
    query.set_rows(10);
    query.set_start(20);
    query.set_sort(b"s".to_vec());
    query.set_filter(b"f".to_vec());
    query.set_df(b"d".to_vec());
    query.set_op(b"and".to_vec());
    query.set_fl(vec![b"a".to_vec(), b"b".to_vec()]);
    query.set_presort(b"key".to_vec());
    assert_eq!(query.get_q(), b"q".to_vec());
    assert_eq!(query.get_index(), b"i".to_vec());
    assert_eq!(query.get_rows(), Some(10));
    assert_eq!(query.get_start(), Some(20));
    assert_eq!(query.get_sort(), Some(b"s".to_vec()));
    assert_eq!(query.get_filter(), Some(b"f".to_vec()));
    assert_eq!(query.get_df(), Some(b"d".to_vec()));
    assert_eq!(query.get_op(), Some(b"and".to_vec()));
    assert_eq!(query.get_fl(), Some(vec![b"a".to_vec(), b"b".to_vec()]));
    assert_eq!(query.get_presort(), Some(b"key".to_vec()));
    query.set_fl(Vec::new());
    assert_eq!(query.get_fl(), None);
    assert_eq!(query.clone().get_rows(), Some(10));
}
