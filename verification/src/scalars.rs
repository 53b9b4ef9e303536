//! The unsigned integers as components.
//!
//! A value is stored in little-endian byte order, and its identifier is its
//! width in bits.

use vstd::prelude::*;

use crate::component::{Component, ComponentId};

verus! {

impl Component for u8 {
    open spec fn spec_component_id() -> ComponentId {
        8
    }

    open spec fn spec_size() -> nat {
        1
    }

    open spec fn encode(self) -> Seq<u8> {
        seq![self]
    }

    open spec fn decode(bytes: Seq<u8>) -> Self {
        bytes[0]
    }

    proof fn lemma_size_bounds() {
    }

    proof fn lemma_round_trip(value: Self) {
    }

    fn component_id() -> (id: ComponentId) {
        8
    }

    fn size() -> (size: usize) {
        1
    }

    fn to_bytes(&self) -> (bytes: Vec<u8>) {
        let mut bytes = Vec::with_capacity(1);
        bytes.push(*self);
        assert(bytes@ =~= seq![*self]);
        bytes
    }

    fn from_bytes(bytes: &[u8]) -> (value: Self) {
        bytes[0]
    }
}

impl Component for u16 {
    open spec fn spec_component_id() -> ComponentId {
        16
    }

    open spec fn spec_size() -> nat {
        2
    }

    open spec fn encode(self) -> Seq<u8> {
        vstd::bytes::spec_u16_to_le_bytes(self)
    }

    open spec fn decode(bytes: Seq<u8>) -> Self {
        vstd::bytes::spec_u16_from_le_bytes(bytes)
    }

    proof fn lemma_size_bounds() {
    }

    proof fn lemma_round_trip(value: Self) {
        vstd::bytes::lemma_auto_spec_u16_to_from_le_bytes();
        assert(vstd::bytes::spec_u16_to_le_bytes(value).len() == 2);
    }

    fn component_id() -> (id: ComponentId) {
        16
    }

    fn size() -> (size: usize) {
        2
    }

    fn to_bytes(&self) -> (bytes: Vec<u8>) {
        vstd::bytes::u16_to_le_bytes(*self)
    }

    fn from_bytes(bytes: &[u8]) -> (value: Self) {
        vstd::bytes::u16_from_le_bytes(bytes)
    }
}

impl Component for u32 {
    open spec fn spec_component_id() -> ComponentId {
        32
    }

    open spec fn spec_size() -> nat {
        4
    }

    open spec fn encode(self) -> Seq<u8> {
        vstd::bytes::spec_u32_to_le_bytes(self)
    }

    open spec fn decode(bytes: Seq<u8>) -> Self {
        vstd::bytes::spec_u32_from_le_bytes(bytes)
    }

    proof fn lemma_size_bounds() {
    }

    proof fn lemma_round_trip(value: Self) {
        vstd::bytes::lemma_auto_spec_u32_to_from_le_bytes();
        assert(vstd::bytes::spec_u32_to_le_bytes(value).len() == 4);
    }

    fn component_id() -> (id: ComponentId) {
        32
    }

    fn size() -> (size: usize) {
        4
    }

    fn to_bytes(&self) -> (bytes: Vec<u8>) {
        vstd::bytes::u32_to_le_bytes(*self)
    }

    fn from_bytes(bytes: &[u8]) -> (value: Self) {
        vstd::bytes::u32_from_le_bytes(bytes)
    }
}

impl Component for u64 {
    open spec fn spec_component_id() -> ComponentId {
        64
    }

    open spec fn spec_size() -> nat {
        8
    }

    open spec fn encode(self) -> Seq<u8> {
        vstd::bytes::spec_u64_to_le_bytes(self)
    }

    open spec fn decode(bytes: Seq<u8>) -> Self {
        vstd::bytes::spec_u64_from_le_bytes(bytes)
    }

    proof fn lemma_size_bounds() {
    }

    proof fn lemma_round_trip(value: Self) {
        vstd::bytes::lemma_auto_spec_u64_to_from_le_bytes();
        assert(vstd::bytes::spec_u64_to_le_bytes(value).len() == 8);
    }

    fn component_id() -> (id: ComponentId) {
        64
    }

    fn size() -> (size: usize) {
        8
    }

    fn to_bytes(&self) -> (bytes: Vec<u8>) {
        vstd::bytes::u64_to_le_bytes(*self)
    }

    fn from_bytes(bytes: &[u8]) -> (value: Self) {
        vstd::bytes::u64_from_le_bytes(bytes)
    }
}

} // verus!
