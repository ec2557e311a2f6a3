//! Requests and responses about single objects.
//!
//! An object is a value under a key in a bucket, with the metadata the
//! server keeps beside it. Every record here is a plain value: optional
//! settings are absent until they are set, and an absent setting leaves the
//! choice to the server.

use crate::connection::payload_view;
use crate::errors::{schema_failure, RiakErr, SchemaError};
use crate::rpb::riak_kv::{del_req_payload, write_del_req};
use crate::rpb::utils::{
    fetch_object_req_to_rpb_get_req, get_req_payload, put_req_payload,
    store_object_req_to_rpb_put_req, RpbGenerator,
};
use crate::rpb::wire::{copy_opt_bytes, opt_bytes};
use vstd::prelude::*;
use vstd::slice::slice_to_vec;

verus! {

/// A request to delete the object under a key.
#[derive(Debug)]
pub struct DeleteObjectReq {
    bucket: Vec<u8>,
    key: Vec<u8>,
    rw: Option<u32>,
    vclock: Option<Vec<u8>>,
    r: Option<u32>,
    w: Option<u32>,
    pr: Option<u32>,
    pw: Option<u32>,
    dw: Option<u32>,
    timeout: Option<u32>,
    sloppy_quorum: Option<bool>,
    n_val: Option<u32>,
    bucket_type: Option<Vec<u8>>,
}

/// What a `DeleteObjectReq` holds.
pub struct DeleteObjectReqView {
    /// The bucket the object is in.
    pub bucket: Seq<u8>,
    /// The key of the object.
    pub key: Seq<u8>,
    /// How many replicas must be deleted before the server answers.
    pub rw: Option<u32>,
    /// The version the caller has seen.
    pub vclock: Option<Seq<u8>>,
    /// The read quorum.
    pub r: Option<u32>,
    /// The write quorum.
    pub w: Option<u32>,
    /// The primary read quorum.
    pub pr: Option<u32>,
    /// The primary write quorum.
    pub pw: Option<u32>,
    /// The durable write quorum.
    pub dw: Option<u32>,
    /// How many milliseconds the server may take.
    pub timeout: Option<u32>,
    /// Whether fallback nodes count towards a quorum.
    pub sloppy_quorum: Option<bool>,
    /// How many replicas the object has.
    pub n_val: Option<u32>,
    /// The type of the bucket.
    pub bucket_type: Option<Seq<u8>>,
}

impl View for DeleteObjectReq {
    type V = DeleteObjectReqView;

    closed spec fn view(&self) -> DeleteObjectReqView {
        DeleteObjectReqView {
            bucket: self.bucket@,
            key: self.key@,
            rw: self.rw,
            vclock: opt_bytes(self.vclock),
            r: self.r,
            w: self.w,
            pr: self.pr,
            pw: self.pw,
            dw: self.dw,
            timeout: self.timeout,
            sloppy_quorum: self.sloppy_quorum,
            n_val: self.n_val,
            bucket_type: opt_bytes(self.bucket_type),
        }
    }
}

impl Clone for DeleteObjectReq {
    fn clone(&self) -> (r: DeleteObjectReq)
        ensures
            r@ == self@,
    {
        DeleteObjectReq {
            bucket: self.bucket.clone(),
            key: self.key.clone(),
            rw: self.rw,
            vclock: copy_opt_bytes(&self.vclock),
            r: self.r,
            w: self.w,
            pr: self.pr,
            pw: self.pw,
            dw: self.dw,
            timeout: self.timeout,
            sloppy_quorum: self.sloppy_quorum,
            n_val: self.n_val,
            bucket_type: copy_opt_bytes(&self.bucket_type),
        }
    }
}

impl DeleteObjectReq {
    /// A request to delete `key` from `bucket`, with every setting left
    /// to the server.
    pub fn new(bucket: Vec<u8>, key: Vec<u8>) -> (r: DeleteObjectReq)
        ensures
            r@ == (DeleteObjectReqView {
                bucket: bucket@,
                key: key@,
                rw: None,
                vclock: None,
                r: None,
                w: None,
                pr: None,
                pw: None,
                dw: None,
                timeout: None,
                sloppy_quorum: None,
                n_val: None,
                bucket_type: None,
            }),
    {
        DeleteObjectReq {
            bucket,
            key,
            rw: None,
            vclock: None,
            r: None,
            w: None,
            pr: None,
            pw: None,
            dw: None,
            timeout: None,
            sloppy_quorum: None,
            n_val: None,
            bucket_type: None,
        }
    }

    /// The type of the bucket.
    pub fn get_bucket_type(&self) -> (r: Option<Vec<u8>>)
        ensures
            opt_bytes(r) == self@.bucket_type,
    {
        copy_opt_bytes(&self.bucket_type)
    }

    /// Sets the type of the bucket.
    pub fn set_bucket_type(&mut self, bucket_type: Vec<u8>)
        ensures
            final(self)@ == (DeleteObjectReqView { bucket_type: Some(bucket_type@), ..old(self)@ }),
    {
        self.bucket_type = Some(bucket_type);
    }

    /// The bucket the object is in.
    pub fn get_bucket(&self) -> (r: Vec<u8>)
        ensures
            r@ == self@.bucket,
    {
        self.bucket.clone()
    }

    /// Sets the bucket the object is in.
    pub fn set_bucket(&mut self, bucket: Vec<u8>)
        ensures
            final(self)@ == (DeleteObjectReqView { bucket: bucket@, ..old(self)@ }),
    {
        self.bucket = bucket;
    }

    /// The key of the object.
    pub fn get_key(&self) -> (r: Vec<u8>)
        ensures
            r@ == self@.key,
    {
        self.key.clone()
    }

    /// Sets the key of the object.
    pub fn set_key(&mut self, key: Vec<u8>)
        ensures
            final(self)@ == (DeleteObjectReqView { key: key@, ..old(self)@ }),
    {
        self.key = key;
    }

    /// The durable write quorum.
    pub fn get_dw(&self) -> (r: Option<u32>)
        ensures
            r == self@.dw,
    {
        self.dw
    }

    /// Sets the durable write quorum.
    pub fn set_dw(&mut self, dw: u32)
        ensures
            final(self)@ == (DeleteObjectReqView { dw: Some(dw), ..old(self)@ }),
    {
        self.dw = Some(dw);
    }

    /// The primary read quorum.
    pub fn get_pr(&self) -> (r: Option<u32>)
        ensures
            r == self@.pr,
    {
        self.pr
    }

    /// Sets the primary read quorum.
    pub fn set_pr(&mut self, pr: u32)
        ensures
            final(self)@ == (DeleteObjectReqView { pr: Some(pr), ..old(self)@ }),
    {
        self.pr = Some(pr);
    }

    /// The primary write quorum.
    pub fn get_pw(&self) -> (r: Option<u32>)
        ensures
            r == self@.pw,
    {
        self.pw
    }

    /// Sets the primary write quorum.
    pub fn set_pw(&mut self, pw: u32)
        ensures
            final(self)@ == (DeleteObjectReqView { pw: Some(pw), ..old(self)@ }),
    {
        self.pw = Some(pw);
    }

    /// How many replicas must be deleted before the server answers.
    pub fn get_rw(&self) -> (r: Option<u32>)
        ensures
            r == self@.rw,
    {
        self.rw
    }

    /// Sets how many replicas must be deleted before the server answers.
    pub fn set_rw(&mut self, rw: u32)
        ensures
            final(self)@ == (DeleteObjectReqView { rw: Some(rw), ..old(self)@ }),
    {
        self.rw = Some(rw);
    }

    /// The read quorum.
    pub fn get_r(&self) -> (r: Option<u32>)
        ensures
            r == self@.r,
    {
        self.r
    }

    /// Sets the read quorum.
    pub fn set_r(&mut self, r: u32)
        ensures
            final(self)@ == (DeleteObjectReqView { r: Some(r), ..old(self)@ }),
    {
        self.r = Some(r);
    }

    /// The write quorum.
    pub fn get_w(&self) -> (r: Option<u32>)
        ensures
            r == self@.w,
    {
        self.w
    }

    /// Sets the write quorum.
    pub fn set_w(&mut self, w: u32)
        ensures
            final(self)@ == (DeleteObjectReqView { w: Some(w), ..old(self)@ }),
    {
        self.w = Some(w);
    }

    /// How many replicas the object has.
    pub fn get_n_val(&self) -> (r: Option<u32>)
        ensures
            r == self@.n_val,
    {
        self.n_val
    }

    /// Sets how many replicas the object has.
    pub fn set_n_val(&mut self, n_val: u32)
        ensures
            final(self)@ == (DeleteObjectReqView { n_val: Some(n_val), ..old(self)@ }),
    {
        self.n_val = Some(n_val);
    }

    /// Whether fallback nodes count towards a quorum.
    pub fn get_sloppy_quorum(&self) -> (r: Option<bool>)
        ensures
            r == self@.sloppy_quorum,
    {
        self.sloppy_quorum
    }

    /// Sets whether fallback nodes count towards a quorum.
    pub fn set_sloppy_quorum(&mut self, sloppy_quorum: bool)
        ensures
            final(self)@ == (DeleteObjectReqView {
                sloppy_quorum: Some(sloppy_quorum),
                ..old(self)@
            }),
    {
        self.sloppy_quorum = Some(sloppy_quorum);
    }

    /// How many milliseconds the server may take.
    pub fn get_timeout(&self) -> (r: Option<u32>)
        ensures
            r == self@.timeout,
    {
        self.timeout
    }

    /// Sets how many milliseconds the server may take.
    pub fn set_timeout(&mut self, timeout: u32)
        ensures
            final(self)@ == (DeleteObjectReqView { timeout: Some(timeout), ..old(self)@ }),
    {
        self.timeout = Some(timeout);
    }

    /// The version the caller has seen.
    pub fn get_vclock(&self) -> (r: Option<Vec<u8>>)
        ensures
            opt_bytes(r) == self@.vclock,
    {
        copy_opt_bytes(&self.vclock)
    }

    /// Sets the version the caller has seen.
    pub fn set_vclock(&mut self, vclock: Vec<u8>)
        ensures
            final(self)@ == (DeleteObjectReqView { vclock: Some(vclock@), ..old(self)@ }),
    {
        self.vclock = Some(vclock);
    }
}

impl RpbGenerator for DeleteObjectReq {
    open spec fn payload(&self) -> Result<Seq<u8>, SchemaError> {
        del_req_payload(self@)
    }

    /// Fails with `TooLong` exactly when the bucket, the key, the version or
    /// the bucket type is longer than a field can hold.
    fn write_to_bytes(&self) -> (r: Result<Vec<u8>, RiakErr>)
        ensures
            payload_view(r) == schema_failure(del_req_payload(self@)),
    {
        match write_del_req(self) {
            Ok(bytes) => Ok(bytes),
            Err(error) => Err(RiakErr::ProtobufError(error)),
        }
    }
}

/// A request to store an object.
#[derive(Debug)]
pub struct StoreObjectReq {
    bucket: Vec<u8>,
    content: ObjectContent,
    asis: Option<bool>,
    bucket_type: Option<Vec<u8>>,
    if_none_match: Option<bool>,
    if_not_modified: Option<bool>,
    key: Option<Vec<u8>>,
    n_val: Option<u32>,
    return_body: Option<bool>,
    return_head: Option<bool>,
    sloppy_quorum: Option<bool>,
    timeout: Option<u32>,
    vclock: Option<Vec<u8>>,
    dw: Option<u32>,
    pw: Option<u32>,
    w: Option<u32>,
}

/// What a `StoreObjectReq` holds.
pub struct StoreObjectReqView {
    /// The bucket to store into.
    pub bucket: Seq<u8>,
    /// The value and its metadata.
    pub content: ObjectContentView,
    /// Whether the object is stored as it is, without a new version.
    pub asis: Option<bool>,
    /// The type of the bucket.
    pub bucket_type: Option<Seq<u8>>,
    /// Whether to store only if the key holds nothing yet.
    pub if_none_match: Option<bool>,
    /// Whether to store only if the version on the server is the one given.
    pub if_not_modified: Option<bool>,
    /// The key; without one the server picks it.
    pub key: Option<Seq<u8>>,
    /// How many replicas the object has.
    pub n_val: Option<u32>,
    /// Whether the reply carries the stored object.
    pub return_body: Option<bool>,
    /// Whether the reply carries the metadata of the stored object.
    pub return_head: Option<bool>,
    /// Whether fallback nodes count towards a quorum.
    pub sloppy_quorum: Option<bool>,
    /// How many milliseconds the server may take.
    pub timeout: Option<u32>,
    /// The version the caller has seen.
    pub vclock: Option<Seq<u8>>,
    /// The durable write quorum.
    pub dw: Option<u32>,
    /// The primary write quorum.
    pub pw: Option<u32>,
    /// The write quorum.
    pub w: Option<u32>,
}

impl View for StoreObjectReq {
    type V = StoreObjectReqView;

    closed spec fn view(&self) -> StoreObjectReqView {
        StoreObjectReqView {
            bucket: self.bucket@,
            content: self.content@,
            asis: self.asis,
            bucket_type: opt_bytes(self.bucket_type),
            if_none_match: self.if_none_match,
            if_not_modified: self.if_not_modified,
            key: opt_bytes(self.key),
            n_val: self.n_val,
            return_body: self.return_body,
            return_head: self.return_head,
            sloppy_quorum: self.sloppy_quorum,
            timeout: self.timeout,
            vclock: opt_bytes(self.vclock),
            dw: self.dw,
            pw: self.pw,
            w: self.w,
        }
    }
}

impl Clone for StoreObjectReq {
    fn clone(&self) -> (r: StoreObjectReq)
        ensures
            r@ == self@,
    {
        StoreObjectReq {
            bucket: self.bucket.clone(),
            content: self.content.clone(),
            asis: self.asis,
            bucket_type: copy_opt_bytes(&self.bucket_type),
            if_none_match: self.if_none_match,
            if_not_modified: self.if_not_modified,
            key: copy_opt_bytes(&self.key),
            n_val: self.n_val,
            return_body: self.return_body,
            return_head: self.return_head,
            sloppy_quorum: self.sloppy_quorum,
            timeout: self.timeout,
            vclock: copy_opt_bytes(&self.vclock),
            dw: self.dw,
            pw: self.pw,
            w: self.w,
        }
    }
}

impl StoreObjectReq {
    /// A request to store `content` in `bucket`, with no key and every
    /// setting left to the server.
    pub fn new(bucket: Vec<u8>, content: ObjectContent) -> (r: StoreObjectReq)
        ensures
            r@ == (StoreObjectReqView {
                bucket: bucket@,
                content: content@,
                asis: None,
                bucket_type: None,
                if_none_match: None,
                if_not_modified: None,
                key: None,
                n_val: None,
                return_body: None,
                return_head: None,
                sloppy_quorum: None,
                timeout: None,
                vclock: None,
                dw: None,
                pw: None,
                w: None,
            }),
    {
        StoreObjectReq {
            bucket,
            content,
            asis: None,
            bucket_type: None,
            if_none_match: None,
            if_not_modified: None,
            key: None,
            n_val: None,
            return_body: None,
            return_head: None,
            sloppy_quorum: None,
            timeout: None,
            vclock: None,
            dw: None,
            pw: None,
            w: None,
        }
    }

    /// The bucket to store into.
    pub fn get_bucket(&self) -> (r: Vec<u8>)
        ensures
            r@ == self@.bucket,
    {
        self.bucket.clone()
    }

    /// Sets the bucket to store into.
    pub fn set_bucket(&mut self, bucket: Vec<u8>)
        ensures
            final(self)@ == (StoreObjectReqView { bucket: bucket@, ..old(self)@ }),
    {
        self.bucket = bucket;
    }

    /// The value and its metadata.
    pub fn get_content(&self) -> (r: ObjectContent)
        ensures
            r@ == self@.content,
    {
        self.content.clone()
    }

    /// Sets the value and its metadata.
    pub fn set_content(&mut self, content: ObjectContent)
        ensures
            final(self)@ == (StoreObjectReqView { content: content@, ..old(self)@ }),
    {
        self.content = content;
    }

    /// The key; without one the server picks it.
    pub fn get_key(&self) -> (r: Option<Vec<u8>>)
        ensures
            opt_bytes(r) == self@.key,
    {
        copy_opt_bytes(&self.key)
    }

    /// Sets the key; without one the server picks it.
    pub fn set_key(&mut self, key: Vec<u8>)
        ensures
            final(self)@ == (StoreObjectReqView { key: Some(key@), ..old(self)@ }),
    {
        self.key = Some(key);
    }

    /// The version the caller has seen.
    pub fn get_vclock(&self) -> (r: Option<Vec<u8>>)
        ensures
            opt_bytes(r) == self@.vclock,
    {
        copy_opt_bytes(&self.vclock)
    }

    /// Sets the version the caller has seen.
    pub fn set_vclock(&mut self, vclock: Vec<u8>)
        ensures
            final(self)@ == (StoreObjectReqView { vclock: Some(vclock@), ..old(self)@ }),
    {
        self.vclock = Some(vclock);
    }

    /// The write quorum.
    pub fn get_w(&self) -> (r: Option<u32>)
        ensures
            r == self@.w,
    {
        self.w
    }

    /// Sets the write quorum.
    pub fn set_w(&mut self, w: u32)
        ensures
            final(self)@ == (StoreObjectReqView { w: Some(w), ..old(self)@ }),
    {
        self.w = Some(w);
    }

    /// The durable write quorum.
    pub fn get_dw(&self) -> (r: Option<u32>)
        ensures
            r == self@.dw,
    {
        self.dw
    }

    /// Sets the durable write quorum.
    pub fn set_dw(&mut self, dw: u32)
        ensures
            final(self)@ == (StoreObjectReqView { dw: Some(dw), ..old(self)@ }),
    {
        self.dw = Some(dw);
    }

    /// Whether the reply carries the stored object.
    pub fn get_return_body(&self) -> (r: Option<bool>)
        ensures
            r == self@.return_body,
    {
        self.return_body
    }

    /// Sets whether the reply carries the stored object.
    pub fn set_return_body(&mut self, return_body: bool)
        ensures
            final(self)@ == (StoreObjectReqView { return_body: Some(return_body), ..old(self)@ }),
    {
        self.return_body = Some(return_body);
    }

    /// The primary write quorum.
    pub fn get_pw(&self) -> (r: Option<u32>)
        ensures
            r == self@.pw,
    {
        self.pw
    }

    /// Sets the primary write quorum.
    pub fn set_pw(&mut self, pw: u32)
        ensures
            final(self)@ == (StoreObjectReqView { pw: Some(pw), ..old(self)@ }),
    {
        self.pw = Some(pw);
    }

    /// Whether to store only if the version on the server is the one given.
    pub fn get_if_not_modified(&self) -> (r: Option<bool>)
        ensures
            r == self@.if_not_modified,
    {
        self.if_not_modified
    }

    /// Sets whether to store only if the version on the server is the one given.
    pub fn set_if_not_modified(&mut self, if_not_modified: bool)
        ensures
            final(self)@ == (StoreObjectReqView {
                if_not_modified: Some(if_not_modified),
                ..old(self)@
            }),
    {
        self.if_not_modified = Some(if_not_modified);
    }

    /// Whether to store only if the key holds nothing yet.
    pub fn get_if_none_match(&self) -> (r: Option<bool>)
        ensures
            r == self@.if_none_match,
    {
        self.if_none_match
    }

    /// Sets whether to store only if the key holds nothing yet.
    pub fn set_if_none_match(&mut self, if_none_match: bool)
        ensures
            final(self)@ == (StoreObjectReqView {
                if_none_match: Some(if_none_match),
                ..old(self)@
            }),
    {
        self.if_none_match = Some(if_none_match);
    }

    /// Whether the reply carries the metadata of the stored object.
    pub fn get_return_head(&self) -> (r: Option<bool>)
        ensures
            r == self@.return_head,
    {
        self.return_head
    }

    /// Sets whether the reply carries the metadata of the stored object.
    pub fn set_return_head(&mut self, return_head: bool)
        ensures
            final(self)@ == (StoreObjectReqView { return_head: Some(return_head), ..old(self)@ }),
    {
        self.return_head = Some(return_head);
    }

    /// How many milliseconds the server may take.
    pub fn get_timeout(&self) -> (r: Option<u32>)
        ensures
            r == self@.timeout,
    {
        self.timeout
    }

    /// Sets how many milliseconds the server may take.
    pub fn set_timeout(&mut self, timeout: u32)
        ensures
            final(self)@ == (StoreObjectReqView { timeout: Some(timeout), ..old(self)@ }),
    {
        self.timeout = Some(timeout);
    }

    /// Whether the object is stored as it is, without a new version.
    pub fn get_asis(&self) -> (r: Option<bool>)
        ensures
            r == self@.asis,
    {
        self.asis
    }

    /// Sets whether the object is stored as it is, without a new version.
    pub fn set_asis(&mut self, asis: bool)
        ensures
            final(self)@ == (StoreObjectReqView { asis: Some(asis), ..old(self)@ }),
    {
        self.asis = Some(asis);
    }

    /// Whether fallback nodes count towards a quorum.
    pub fn get_sloppy_quorum(&self) -> (r: Option<bool>)
        ensures
            r == self@.sloppy_quorum,
    {
        self.sloppy_quorum
    }

    /// Sets whether fallback nodes count towards a quorum.
    pub fn set_sloppy_quorum(&mut self, sloppy_quorum: bool)
        ensures
            final(self)@ == (StoreObjectReqView {
                sloppy_quorum: Some(sloppy_quorum),
                ..old(self)@
            }),
    {
        self.sloppy_quorum = Some(sloppy_quorum);
    }

    /// How many replicas the object has.
    pub fn get_n_val(&self) -> (r: Option<u32>)
        ensures
            r == self@.n_val,
    {
        self.n_val
    }

    /// Sets how many replicas the object has.
    pub fn set_n_val(&mut self, n_val: u32)
        ensures
            final(self)@ == (StoreObjectReqView { n_val: Some(n_val), ..old(self)@ }),
    {
        self.n_val = Some(n_val);
    }

    /// The type of the bucket.
    pub fn get_bucket_type(&self) -> (r: Option<Vec<u8>>)
        ensures
            opt_bytes(r) == self@.bucket_type,
    {
        copy_opt_bytes(&self.bucket_type)
    }

    /// Sets the type of the bucket.
    pub fn set_bucket_type(&mut self, bucket_type: Vec<u8>)
        ensures
            final(self)@ == (StoreObjectReqView { bucket_type: Some(bucket_type@), ..old(self)@ }),
    {
        self.bucket_type = Some(bucket_type);
    }
}

impl RpbGenerator for StoreObjectReq {
    open spec fn payload(&self) -> Result<Seq<u8>, SchemaError> {
        put_req_payload(self@)
    }

    /// Fails with `TooLong` exactly when a value of the request, or the
    /// rendered content, is longer than a field can hold.
    fn write_to_bytes(&self) -> (r: Result<Vec<u8>, RiakErr>)
        ensures
            payload_view(r) == schema_failure(put_req_payload(self@)),
    {
        match store_object_req_to_rpb_put_req(self) {
            Ok(bytes) => Ok(bytes),
            Err(error) => Err(RiakErr::ProtobufError(error)),
        }
    }
}

/// A request to fetch the object under a key.
#[derive(Debug)]
pub struct FetchObjectReq {
    bucket: Vec<u8>,
    key: Vec<u8>,
    r: Option<u32>,
    pr: Option<u32>,
    basic_quorum: Option<bool>,
    notfound_ok: Option<bool>,
    if_modified: Option<Vec<u8>>,
    head: Option<bool>,
    deletedvclock: Option<bool>,
    timeout: Option<u32>,
    sloppy_quorum: Option<bool>,
    n_val: Option<u32>,
    bucket_type: Option<Vec<u8>>,
}

/// What a `FetchObjectReq` holds.
pub struct FetchObjectReqView {
    /// The bucket the object is in.
    pub bucket: Seq<u8>,
    /// The key of the object.
    pub key: Seq<u8>,
    /// The read quorum.
    pub r: Option<u32>,
    /// The primary read quorum.
    pub pr: Option<u32>,
    /// Whether a quorum of not-found answers ends the read early.
    pub basic_quorum: Option<bool>,
    /// Whether a not-found answer counts towards the quorum.
    pub notfound_ok: Option<bool>,
    /// A version: the object is sent only if it has another.
    pub if_modified: Option<Seq<u8>>,
    /// Whether only the metadata is wanted.
    pub head: Option<bool>,
    /// Whether the version of a deleted object is wanted.
    pub deletedvclock: Option<bool>,
    /// How many milliseconds the server may take.
    pub timeout: Option<u32>,
    /// Whether fallback nodes count towards a quorum.
    pub sloppy_quorum: Option<bool>,
    /// How many replicas the object has.
    pub n_val: Option<u32>,
    /// The type of the bucket.
    pub bucket_type: Option<Seq<u8>>,
}

impl View for FetchObjectReq {
    type V = FetchObjectReqView;

    closed spec fn view(&self) -> FetchObjectReqView {
        FetchObjectReqView {
            bucket: self.bucket@,
            key: self.key@,
            r: self.r,
            pr: self.pr,
            basic_quorum: self.basic_quorum,
            notfound_ok: self.notfound_ok,
            if_modified: opt_bytes(self.if_modified),
            head: self.head,
            deletedvclock: self.deletedvclock,
            timeout: self.timeout,
            sloppy_quorum: self.sloppy_quorum,
            n_val: self.n_val,
            bucket_type: opt_bytes(self.bucket_type),
        }
    }
}

impl Clone for FetchObjectReq {
    fn clone(&self) -> (r: FetchObjectReq)
        ensures
            r@ == self@,
    {
        FetchObjectReq {
            bucket: self.bucket.clone(),
            key: self.key.clone(),
            r: self.r,
            pr: self.pr,
            basic_quorum: self.basic_quorum,
            notfound_ok: self.notfound_ok,
            if_modified: copy_opt_bytes(&self.if_modified),
            head: self.head,
            deletedvclock: self.deletedvclock,
            timeout: self.timeout,
            sloppy_quorum: self.sloppy_quorum,
            n_val: self.n_val,
            bucket_type: copy_opt_bytes(&self.bucket_type),
        }
    }
}

impl FetchObjectReq {
    /// A request to fetch `key` from `bucket`, with every setting left to
    /// the server.
    pub fn new(bucket: Vec<u8>, key: Vec<u8>) -> (r: FetchObjectReq)
        ensures
            r@ == (FetchObjectReqView {
                bucket: bucket@,
                key: key@,
                r: None,
                pr: None,
                basic_quorum: None,
                notfound_ok: None,
                if_modified: None,
                head: None,
                deletedvclock: None,
                timeout: None,
                sloppy_quorum: None,
                n_val: None,
                bucket_type: None,
            }),
    {
        FetchObjectReq {
            bucket,
            key,
            r: None,
            pr: None,
            basic_quorum: None,
            notfound_ok: None,
            if_modified: None,
            head: None,
            deletedvclock: None,
            timeout: None,
            sloppy_quorum: None,
            n_val: None,
            bucket_type: None,
        }
    }

    /// The bucket the object is in.
    pub fn get_bucket(&self) -> (r: Vec<u8>)
        ensures
            r@ == self@.bucket,
    {
        self.bucket.clone()
    }

    /// Sets the bucket the object is in.
    pub fn set_bucket(&mut self, bucket: Vec<u8>)
        ensures
            final(self)@ == (FetchObjectReqView { bucket: bucket@, ..old(self)@ }),
    {
        self.bucket = bucket;
    }

    /// The key of the object.
    pub fn get_key(&self) -> (r: Vec<u8>)
        ensures
            r@ == self@.key,
    {
        self.key.clone()
    }

    /// Sets the key of the object.
    pub fn set_key(&mut self, key: Vec<u8>)
        ensures
            final(self)@ == (FetchObjectReqView { key: key@, ..old(self)@ }),
    {
        self.key = key;
    }

    /// The read quorum.
    pub fn get_r(&self) -> (r: Option<u32>)
        ensures
            r == self@.r,
    {
        self.r
    }

    /// Sets the read quorum.
    pub fn set_r(&mut self, r: u32)
        ensures
            final(self)@ == (FetchObjectReqView { r: Some(r), ..old(self)@ }),
    {
        self.r = Some(r);
    }

    /// The primary read quorum.
    pub fn get_pr(&self) -> (r: Option<u32>)
        ensures
            r == self@.pr,
    {
        self.pr
    }

    /// Sets the primary read quorum.
    pub fn set_pr(&mut self, pr: u32)
        ensures
            final(self)@ == (FetchObjectReqView { pr: Some(pr), ..old(self)@ }),
    {
        self.pr = Some(pr);
    }

    /// Whether a quorum of not-found answers ends the read early.
    pub fn get_basic_quorum(&self) -> (r: Option<bool>)
        ensures
            r == self@.basic_quorum,
    {
        self.basic_quorum
    }

    /// Sets whether a quorum of not-found answers ends the read early.
    pub fn set_basic_quorum(&mut self, basic_quorum: bool)
        ensures
            final(self)@ == (FetchObjectReqView { basic_quorum: Some(basic_quorum), ..old(self)@ }),
    {
        self.basic_quorum = Some(basic_quorum);
    }

    /// Whether a not-found answer counts towards the quorum.
    pub fn get_notfound_ok(&self) -> (r: Option<bool>)
        ensures
            r == self@.notfound_ok,
    {
        self.notfound_ok
    }

    /// Sets whether a not-found answer counts towards the quorum.
    pub fn set_notfound_ok(&mut self, notfound_ok: bool)
        ensures
            final(self)@ == (FetchObjectReqView { notfound_ok: Some(notfound_ok), ..old(self)@ }),
    {
        self.notfound_ok = Some(notfound_ok);
    }

    /// A version: the object is sent only if it has another.
    pub fn get_if_modified(&self) -> (r: Option<Vec<u8>>)
        ensures
            opt_bytes(r) == self@.if_modified,
    {
        copy_opt_bytes(&self.if_modified)
    }

    /// Sets a version: the object is sent only if it has another.
    pub fn set_if_modified(&mut self, if_modified: Vec<u8>)
        ensures
            final(self)@ == (FetchObjectReqView { if_modified: Some(if_modified@), ..old(self)@ }),
    {
        self.if_modified = Some(if_modified);
    }

    /// Whether only the metadata is wanted.
    pub fn get_head(&self) -> (r: Option<bool>)
        ensures
            r == self@.head,
    {
        self.head
    }

    /// Sets whether only the metadata is wanted.
    pub fn set_head(&mut self, head: bool)
        ensures
            final(self)@ == (FetchObjectReqView { head: Some(head), ..old(self)@ }),
    {
        self.head = Some(head);
    }

    /// Whether the version of a deleted object is wanted.
    pub fn get_deletedvclock(&self) -> (r: Option<bool>)
        ensures
            r == self@.deletedvclock,
    {
        self.deletedvclock
    }

    /// Sets whether the version of a deleted object is wanted.
    pub fn set_deletedvclock(&mut self, deletedvclock: bool)
        ensures
            final(self)@ == (FetchObjectReqView {
                deletedvclock: Some(deletedvclock),
                ..old(self)@
            }),
    {
        self.deletedvclock = Some(deletedvclock);
    }

    /// How many milliseconds the server may take.
    pub fn get_timeout(&self) -> (r: Option<u32>)
        ensures
            r == self@.timeout,
    {
        self.timeout
    }

    /// Sets how many milliseconds the server may take.
    pub fn set_timeout(&mut self, timeout: u32)
        ensures
            final(self)@ == (FetchObjectReqView { timeout: Some(timeout), ..old(self)@ }),
    {
        self.timeout = Some(timeout);
    }

    /// Whether fallback nodes count towards a quorum.
    pub fn get_sloppy_quorum(&self) -> (r: Option<bool>)
        ensures
            r == self@.sloppy_quorum,
    {
        self.sloppy_quorum
    }

    /// Sets whether fallback nodes count towards a quorum.
    pub fn set_sloppy_quorum(&mut self, sloppy_quorum: bool)
        ensures
            final(self)@ == (FetchObjectReqView {
                sloppy_quorum: Some(sloppy_quorum),
                ..old(self)@
            }),
    {
        self.sloppy_quorum = Some(sloppy_quorum);
    }

    /// How many replicas the object has.
    pub fn get_n_val(&self) -> (r: Option<u32>)
        ensures
            r == self@.n_val,
    {
        self.n_val
    }

    /// Sets how many replicas the object has.
    pub fn set_n_val(&mut self, n_val: u32)
        ensures
            final(self)@ == (FetchObjectReqView { n_val: Some(n_val), ..old(self)@ }),
    {
        self.n_val = Some(n_val);
    }

    /// The type of the bucket.
    pub fn get_bucket_type(&self) -> (r: Option<Vec<u8>>)
        ensures
            opt_bytes(r) == self@.bucket_type,
    {
        copy_opt_bytes(&self.bucket_type)
    }

    /// Sets the type of the bucket.
    pub fn set_bucket_type(&mut self, bucket_type: Vec<u8>)
        ensures
            final(self)@ == (FetchObjectReqView { bucket_type: Some(bucket_type@), ..old(self)@ }),
    {
        self.bucket_type = Some(bucket_type);
    }
}

impl RpbGenerator for FetchObjectReq {
    open spec fn payload(&self) -> Result<Seq<u8>, SchemaError> {
        get_req_payload(self@)
    }

    /// Fails with `TooLong` exactly when the bucket, the key, the version or
    /// the bucket type is longer than a field can hold.
    fn write_to_bytes(&self) -> (r: Result<Vec<u8>, RiakErr>)
        ensures
            payload_view(r) == schema_failure(get_req_payload(self@)),
    {
        match fetch_object_req_to_rpb_get_req(self) {
            Ok(bytes) => Ok(bytes),
            Err(error) => Err(RiakErr::ProtobufError(error)),
        }
    }
}

/// What the server holds under a key: every sibling of the object, its
/// version, and whether it is unchanged if the request asked for that.
#[derive(Debug)]
pub struct FetchObjectResp {
    content: Vec<ObjectContent>,
    vclock: Vec<u8>,
    unchanged: Option<bool>,
}

/// What a `FetchObjectResp` holds.
pub struct FetchObjectRespView {
    /// The object; more than one entry where siblings exist, none where the key holds nothing.
    pub content: Seq<ObjectContentView>,
    /// The version of the object.
    pub vclock: Seq<u8>,
    /// Whether the object still has the version the request named.
    pub unchanged: Option<bool>,
}

impl View for FetchObjectResp {
    type V = FetchObjectRespView;

    closed spec fn view(&self) -> FetchObjectRespView {
        FetchObjectRespView {
            content: self.content.deep_view(),
            vclock: self.vclock@,
            unchanged: self.unchanged,
        }
    }
}

impl DeepView for FetchObjectResp {
    type V = FetchObjectRespView;

    open spec fn deep_view(&self) -> FetchObjectRespView {
        self@
    }
}

impl Clone for FetchObjectResp {
    fn clone(&self) -> (r: FetchObjectResp)
        ensures
            r@ == self@,
    {
        FetchObjectResp {
            content: copy_contents(&self.content),
            vclock: self.vclock.clone(),
            unchanged: self.unchanged,
        }
    }
}

impl FetchObjectResp {
    /// A response with copies of `content` and `vclock`, and nothing said
    /// about a change.
    pub fn new(content: &Vec<ObjectContent>, vclock: &[u8]) -> (r: FetchObjectResp)
        ensures
            r@ == (FetchObjectRespView {
                content: content.deep_view(),
                vclock: vclock@,
                unchanged: None,
            }),
    {
        FetchObjectResp {
            content: copy_contents(content),
            vclock: slice_to_vec(vclock),
            unchanged: None,
        }
    }

    /// The object; more than one entry where siblings exist, none where the key holds nothing.
    pub fn get_content(&self) -> (r: Vec<ObjectContent>)
        ensures
            r.deep_view() == self@.content,
    {
        copy_contents(&self.content)
    }

    /// Sets the object; more than one entry where siblings exist, none where the key holds nothing.
    pub fn set_content(&mut self, content: Vec<ObjectContent>)
        ensures
            final(self)@ == (FetchObjectRespView { content: content.deep_view(), ..old(self)@ }),
    {
        self.content = content;
    }

    /// The version of the object.
    pub fn get_vclock(&self) -> (r: Vec<u8>)
        ensures
            r@ == self@.vclock,
    {
        self.vclock.clone()
    }

    /// Sets the version of the object.
    pub fn set_vclock(&mut self, vclock: Vec<u8>)
        ensures
            final(self)@ == (FetchObjectRespView { vclock: vclock@, ..old(self)@ }),
    {
        self.vclock = vclock;
    }

    /// Whether the object still has the version the request named.
    pub fn get_unchanged(&self) -> (r: Option<bool>)
        ensures
            r == self@.unchanged,
    {
        self.unchanged
    }

    /// Sets whether the object still has the version the request named.
    pub fn set_unchanged(&mut self, unchanged: bool)
        ensures
            final(self)@ == (FetchObjectRespView { unchanged: Some(unchanged), ..old(self)@ }),
    {
        self.unchanged = Some(unchanged);
    }
}

/// A value and the metadata stored with it.
#[derive(Debug)]
pub struct ObjectContent {
    value: Vec<u8>,
    content_type: Option<Vec<u8>>,
    charset: Option<Vec<u8>>,
    content_encoding: Option<Vec<u8>>,
    vtag: Option<Vec<u8>>,
    last_mod: Option<u32>,
    last_mod_usecs: Option<u32>,
    deleted: Option<bool>,
}

/// What a `ObjectContent` holds.
pub struct ObjectContentView {
    /// The value itself.
    pub value: Seq<u8>,
    /// The media type of the value.
    pub content_type: Option<Seq<u8>>,
    /// The character set of the value.
    pub charset: Option<Seq<u8>>,
    /// How the value is encoded.
    pub content_encoding: Option<Seq<u8>>,
    /// The tag that tells siblings apart.
    pub vtag: Option<Seq<u8>>,
    /// The seconds since the epoch at the last change.
    pub last_mod: Option<u32>,
    /// The microseconds beyond those seconds.
    pub last_mod_usecs: Option<u32>,
    /// Whether the object is a tombstone.
    pub deleted: Option<bool>,
}

impl View for ObjectContent {
    type V = ObjectContentView;

    closed spec fn view(&self) -> ObjectContentView {
        ObjectContentView {
            value: self.value@,
            content_type: opt_bytes(self.content_type),
            charset: opt_bytes(self.charset),
            content_encoding: opt_bytes(self.content_encoding),
            vtag: opt_bytes(self.vtag),
            last_mod: self.last_mod,
            last_mod_usecs: self.last_mod_usecs,
            deleted: self.deleted,
        }
    }
}

impl DeepView for ObjectContent {
    type V = ObjectContentView;

    open spec fn deep_view(&self) -> ObjectContentView {
        self@
    }
}

impl Clone for ObjectContent {
    fn clone(&self) -> (r: ObjectContent)
        ensures
            r@ == self@,
    {
        ObjectContent {
            value: self.value.clone(),
            content_type: copy_opt_bytes(&self.content_type),
            charset: copy_opt_bytes(&self.charset),
            content_encoding: copy_opt_bytes(&self.content_encoding),
            vtag: copy_opt_bytes(&self.vtag),
            last_mod: self.last_mod,
            last_mod_usecs: self.last_mod_usecs,
            deleted: self.deleted,
        }
    }
}

impl ObjectContent {
    /// A value with no metadata.
    pub fn new(value: Vec<u8>) -> (r: ObjectContent)
        ensures
            r@ == (ObjectContentView {
                value: value@,
                content_type: None,
                charset: None,
                content_encoding: None,
                vtag: None,
                last_mod: None,
                last_mod_usecs: None,
                deleted: None,
            }),
    {
        ObjectContent {
            value,
            content_type: None,
            charset: None,
            content_encoding: None,
            vtag: None,
            last_mod: None,
            last_mod_usecs: None,
            deleted: None,
        }
    }

    /// The value itself.
    pub fn get_value(&self) -> (r: Vec<u8>)
        ensures
            r@ == self@.value,
    {
        self.value.clone()
    }

    /// Sets the value itself.
    pub fn set_value(&mut self, value: Vec<u8>)
        ensures
            final(self)@ == (ObjectContentView { value: value@, ..old(self)@ }),
    {
        self.value = value;
    }

    /// The media type of the value.
    pub fn get_content_type(&self) -> (r: Option<Vec<u8>>)
        ensures
            opt_bytes(r) == self@.content_type,
    {
        copy_opt_bytes(&self.content_type)
    }

    /// Sets the media type of the value.
    pub fn set_content_type(&mut self, content_type: Vec<u8>)
        ensures
            final(self)@ == (ObjectContentView { content_type: Some(content_type@), ..old(self)@ }),
    {
        self.content_type = Some(content_type);
    }

    /// The character set of the value.
    pub fn get_charset(&self) -> (r: Option<Vec<u8>>)
        ensures
            opt_bytes(r) == self@.charset,
    {
        copy_opt_bytes(&self.charset)
    }

    /// Sets the character set of the value.
    pub fn set_charset(&mut self, charset: Vec<u8>)
        ensures
            final(self)@ == (ObjectContentView { charset: Some(charset@), ..old(self)@ }),
    {
        self.charset = Some(charset);
    }

    /// How the value is encoded.
    pub fn get_content_encoding(&self) -> (r: Option<Vec<u8>>)
        ensures
            opt_bytes(r) == self@.content_encoding,
    {
        copy_opt_bytes(&self.content_encoding)
    }

    /// Sets how the value is encoded.
    pub fn set_content_encoding(&mut self, content_encoding: Vec<u8>)
        ensures
            final(self)@ == (ObjectContentView {
                content_encoding: Some(content_encoding@),
                ..old(self)@
            }),
    {
        self.content_encoding = Some(content_encoding);
    }

    /// The tag that tells siblings apart.
    pub fn get_vtag(&self) -> (r: Option<Vec<u8>>)
        ensures
            opt_bytes(r) == self@.vtag,
    {
        copy_opt_bytes(&self.vtag)
    }

    /// Sets the tag that tells siblings apart.
    pub fn set_vtag(&mut self, vtag: &[u8])
        ensures
            final(self)@ == (ObjectContentView { vtag: Some(vtag@), ..old(self)@ }),
    {
        self.vtag = Some(slice_to_vec(vtag));
    }

    /// The seconds since the epoch at the last change.
    pub fn get_last_mod(&self) -> (r: Option<u32>)
        ensures
            r == self@.last_mod,
    {
        self.last_mod
    }

    /// Sets the seconds since the epoch at the last change.
    pub fn set_last_mod(&mut self, last_mod: u32)
        ensures
            final(self)@ == (ObjectContentView { last_mod: Some(last_mod), ..old(self)@ }),
    {
        self.last_mod = Some(last_mod);
    }

    /// The microseconds beyond those seconds.
    pub fn get_last_mod_usecs(&self) -> (r: Option<u32>)
        ensures
            r == self@.last_mod_usecs,
    {
        self.last_mod_usecs
    }

    /// Sets the microseconds beyond those seconds.
    pub fn set_last_mod_usecs(&mut self, last_mod_usecs: u32)
        ensures
            final(self)@ == (ObjectContentView {
                last_mod_usecs: Some(last_mod_usecs),
                ..old(self)@
            }),
    {
        self.last_mod_usecs = Some(last_mod_usecs);
    }

    /// Whether the object is a tombstone.
    pub fn get_deleted(&self) -> (r: Option<bool>)
        ensures
            r == self@.deleted,
    {
        self.deleted
    }

    /// Sets whether the object is a tombstone.
    pub fn set_deleted(&mut self, deleted: bool)
        ensures
            final(self)@ == (ObjectContentView { deleted: Some(deleted), ..old(self)@ }),
    {
        self.deleted = Some(deleted);
    }
}

/// Copies a list of contents, entry by entry.
pub fn copy_contents(contents: &Vec<ObjectContent>) -> (r: Vec<ObjectContent>)
    ensures
        r.deep_view() == contents.deep_view(),
{
    let mut copies: Vec<ObjectContent> = Vec::new();
    let mut i: usize = 0;
    while i < contents.len()
        invariant
            i <= contents.len(),
            copies.len() == i,
            forall|k: int| 0 <= k < i ==> (#[trigger] copies[k])@ == contents[k]@,
        decreases contents.len() - i,
    {
        copies.push(contents[i].clone());
        i += 1;
    }
    assert(copies.deep_view() =~= contents.deep_view());
    copies
}

} // verus!
