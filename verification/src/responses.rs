//! Envelopes that every API answer is wrapped in.

use vstd::prelude::*;

use crate::pagination::PaginationMeta;

verus! {

/// Version tag carried by every envelope.
pub const API_VERSION: &'static str = "v0.1.0";

/// Message carried by successful envelopes that name no other message.
pub const SUCCESS_MESSAGE: &'static str = "Success";

pub struct ErrorResponse {
    pub message: String,
    pub version: String,
}

impl ErrorResponse {
    pub fn new(message: String) -> (r: Self)
        ensures
            r.message@ == message@,
            r.version@ == API_VERSION@,
    {
        ErrorResponse { message, version: String::from_str(API_VERSION) }
    }
}

pub struct SingleResponse<T> {
    pub message: String,
    pub data: T,
    pub version: String,
}

impl<T> SingleResponse<T> {
    pub fn new(data: T) -> (r: Self)
        ensures
            r.message@ == SUCCESS_MESSAGE@,
            r.data == data,
            r.version@ == API_VERSION@,
    {
        SingleResponse { message: String::from_str(SUCCESS_MESSAGE), data, version: String::from_str(API_VERSION) }
    }

    pub fn with_message(message: String, data: T) -> (r: Self)
        ensures
            r.message@ == message@,
            r.data == data,
            r.version@ == API_VERSION@,
    {
        SingleResponse { message, data, version: String::from_str(API_VERSION) }
    }
}

pub struct MessageOnlyResponse {
    pub message: String,
    pub version: String,
}

impl MessageOnlyResponse {
    pub fn new(message: String) -> (r: Self)
        ensures
            r.message@ == message@,
            r.version@ == API_VERSION@,
    {
        MessageOnlyResponse { message, version: String::from_str(API_VERSION) }
    }
}

pub struct ListResponse<T> {
    pub message: String,
    pub data: Vec<T>,
    pub meta: PaginationMeta,
    pub version: String,
}

impl<T> ListResponse<T> {
    pub fn new(data: Vec<T>, meta: PaginationMeta) -> (r: Self)
        ensures
            r.message@ == SUCCESS_MESSAGE@,
            r.data@ == data@,
            r.meta == meta,
            r.version@ == API_VERSION@,
    {
        ListResponse { message: String::from_str(SUCCESS_MESSAGE), data, meta, version: String::from_str(API_VERSION) }
    }

    pub fn with_message(message: String, data: Vec<T>, meta: PaginationMeta) -> (r: Self)
        ensures
            r.message@ == message@,
            r.data@ == data@,
            r.meta == meta,
            r.version@ == API_VERSION@,
    {
        ListResponse { message, data, meta, version: String::from_str(API_VERSION) }
    }
}

} // verus!
