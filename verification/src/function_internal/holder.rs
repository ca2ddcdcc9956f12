//! Conversion of arguments to the form in which they are held for a call.

use crate::collections::tensor::Tensor;
use crate::extra::module::Module;
use crate::function::Function;
use crate::object::arc::ObjectArc;
use crate::object::heap::{given_up, ObjectHeap};
use crate::object::refs::{ObjectRef, ObjectRefCore};
use vstd::prelude::*;

verus! {

/// Conversion of an argument to the type that holds it for a call.
pub trait IntoArgHolder: Sized {
    type Target;

    spec fn held_by(self, holder: Self::Target) -> bool;

    fn into_arg_holder(self) -> (holder: Self::Target)
        ensures
            self.held_by(holder),
    ;
}

/// A reference to an argument, whether it is given by value or by reference.
pub trait ArgIntoRef: Sized {
    type Target;

    spec fn target(&self) -> Self::Target;

    /// What the argument owns can be given up.
    spec fn releasable(&self, heap: &ObjectHeap) -> bool;

    /// What the argument owned was given up.
    spec fn released(&self, before: &ObjectHeap, after: &ObjectHeap) -> bool;

    fn to_ref(&self) -> (target: &Self::Target)
        ensures
            *target == self.target(),
    ;

    /// Gives up what the argument owns.
    fn give_up(self, heap: &mut ObjectHeap)
        requires
            old(heap).well_formed(),
            self.releasable(old(heap)),
        ensures
            final(heap).well_formed(),
            self.released(old(heap), final(heap)),
    ;
}

/// Text is held as a string of its own.
impl IntoArgHolder for &str {
    type Target = String;

    open spec fn held_by(self, holder: String) -> bool {
        holder@ == self@
    }

    fn into_arg_holder(self) -> String {
        self.to_owned()
    }
}

/// Bytes are held as a vector of their own.
impl IntoArgHolder for &[u8] {
    type Target = Vec<u8>;

    open spec fn held_by(self, holder: Vec<u8>) -> bool {
        holder@ == self@
    }

    fn into_arg_holder(self) -> Vec<u8> {
        let mut bytes: Vec<u8> = Vec::new();
        bytes.extend_from_slice(self);
        assert(bytes@ =~= self@);
        bytes
    }
}

impl IntoArgHolder for bool {
    type Target = bool;

    open spec fn held_by(self, holder: bool) -> bool {
        holder == self
    }

    fn into_arg_holder(self) -> bool {
        self
    }
}

impl<'a> IntoArgHolder for &'a bool {
    type Target = &'a bool;

    open spec fn held_by(self, holder: &'a bool) -> bool {
        holder == self
    }

    fn into_arg_holder(self) -> &'a bool {
        self
    }
}

impl ArgIntoRef for bool {
    type Target = bool;

    open spec fn target(&self) -> bool {
        *self
    }

    open spec fn releasable(&self, heap: &ObjectHeap) -> bool {
        true
    }

    open spec fn released(&self, before: &ObjectHeap, after: &ObjectHeap) -> bool {
        *after == *before
    }

    fn to_ref(&self) -> &bool {
        self
    }

    fn give_up(self, heap: &mut ObjectHeap) {
    }
}

impl ArgIntoRef for &bool {
    type Target = bool;

    open spec fn target(&self) -> bool {
        **self
    }

    open spec fn releasable(&self, heap: &ObjectHeap) -> bool {
        true
    }

    open spec fn released(&self, before: &ObjectHeap, after: &ObjectHeap) -> bool {
        *after == *before
    }

    fn to_ref(&self) -> &bool {
        *self
    }

    fn give_up(self, heap: &mut ObjectHeap) {
    }
}

impl IntoArgHolder for i8 {
    type Target = i8;

    open spec fn held_by(self, holder: i8) -> bool {
        holder == self
    }

    fn into_arg_holder(self) -> i8 {
        self
    }
}

impl<'a> IntoArgHolder for &'a i8 {
    type Target = &'a i8;

    open spec fn held_by(self, holder: &'a i8) -> bool {
        holder == self
    }

    fn into_arg_holder(self) -> &'a i8 {
        self
    }
}

impl ArgIntoRef for i8 {
    type Target = i8;

    open spec fn target(&self) -> i8 {
        *self
    }

    open spec fn releasable(&self, heap: &ObjectHeap) -> bool {
        true
    }

    open spec fn released(&self, before: &ObjectHeap, after: &ObjectHeap) -> bool {
        *after == *before
    }

    fn to_ref(&self) -> &i8 {
        self
    }

    fn give_up(self, heap: &mut ObjectHeap) {
    }
}

impl ArgIntoRef for &i8 {
    type Target = i8;

    open spec fn target(&self) -> i8 {
        **self
    }

    open spec fn releasable(&self, heap: &ObjectHeap) -> bool {
        true
    }

    open spec fn released(&self, before: &ObjectHeap, after: &ObjectHeap) -> bool {
        *after == *before
    }

    fn to_ref(&self) -> &i8 {
        *self
    }

    fn give_up(self, heap: &mut ObjectHeap) {
    }
}

impl IntoArgHolder for i16 {
    type Target = i16;

    open spec fn held_by(self, holder: i16) -> bool {
        holder == self
    }

    fn into_arg_holder(self) -> i16 {
        self
    }
}

impl<'a> IntoArgHolder for &'a i16 {
    type Target = &'a i16;

    open spec fn held_by(self, holder: &'a i16) -> bool {
        holder == self
    }

    fn into_arg_holder(self) -> &'a i16 {
        self
    }
}

impl ArgIntoRef for i16 {
    type Target = i16;

    open spec fn target(&self) -> i16 {
        *self
    }

    open spec fn releasable(&self, heap: &ObjectHeap) -> bool {
        true
    }

    open spec fn released(&self, before: &ObjectHeap, after: &ObjectHeap) -> bool {
        *after == *before
    }

    fn to_ref(&self) -> &i16 {
        self
    }

    fn give_up(self, heap: &mut ObjectHeap) {
    }
}

impl ArgIntoRef for &i16 {
    type Target = i16;

    open spec fn target(&self) -> i16 {
        **self
    }

    open spec fn releasable(&self, heap: &ObjectHeap) -> bool {
        true
    }

    open spec fn released(&self, before: &ObjectHeap, after: &ObjectHeap) -> bool {
        *after == *before
    }

    fn to_ref(&self) -> &i16 {
        *self
    }

    fn give_up(self, heap: &mut ObjectHeap) {
    }
}

impl IntoArgHolder for i32 {
    type Target = i32;

    open spec fn held_by(self, holder: i32) -> bool {
        holder == self
    }

    fn into_arg_holder(self) -> i32 {
        self
    }
}

impl<'a> IntoArgHolder for &'a i32 {
    type Target = &'a i32;

    open spec fn held_by(self, holder: &'a i32) -> bool {
        holder == self
    }

    fn into_arg_holder(self) -> &'a i32 {
        self
    }
}

impl ArgIntoRef for i32 {
    type Target = i32;

    open spec fn target(&self) -> i32 {
        *self
    }

    open spec fn releasable(&self, heap: &ObjectHeap) -> bool {
        true
    }

    open spec fn released(&self, before: &ObjectHeap, after: &ObjectHeap) -> bool {
        *after == *before
    }

    fn to_ref(&self) -> &i32 {
        self
    }

    fn give_up(self, heap: &mut ObjectHeap) {
    }
}

impl ArgIntoRef for &i32 {
    type Target = i32;

    open spec fn target(&self) -> i32 {
        **self
    }

    open spec fn releasable(&self, heap: &ObjectHeap) -> bool {
        true
    }

    open spec fn released(&self, before: &ObjectHeap, after: &ObjectHeap) -> bool {
        *after == *before
    }

    fn to_ref(&self) -> &i32 {
        *self
    }

    fn give_up(self, heap: &mut ObjectHeap) {
    }
}

impl IntoArgHolder for i64 {
    type Target = i64;

    open spec fn held_by(self, holder: i64) -> bool {
        holder == self
    }

    fn into_arg_holder(self) -> i64 {
        self
    }
}

impl<'a> IntoArgHolder for &'a i64 {
    type Target = &'a i64;

    open spec fn held_by(self, holder: &'a i64) -> bool {
        holder == self
    }

    fn into_arg_holder(self) -> &'a i64 {
        self
    }
}

impl ArgIntoRef for i64 {
    type Target = i64;

    open spec fn target(&self) -> i64 {
        *self
    }

    open spec fn releasable(&self, heap: &ObjectHeap) -> bool {
        true
    }

    open spec fn released(&self, before: &ObjectHeap, after: &ObjectHeap) -> bool {
        *after == *before
    }

    fn to_ref(&self) -> &i64 {
        self
    }

    fn give_up(self, heap: &mut ObjectHeap) {
    }
}

impl ArgIntoRef for &i64 {
    type Target = i64;

    open spec fn target(&self) -> i64 {
        **self
    }

    open spec fn releasable(&self, heap: &ObjectHeap) -> bool {
        true
    }

    open spec fn released(&self, before: &ObjectHeap, after: &ObjectHeap) -> bool {
        *after == *before
    }

    fn to_ref(&self) -> &i64 {
        *self
    }

    fn give_up(self, heap: &mut ObjectHeap) {
    }
}

impl IntoArgHolder for isize {
    type Target = isize;

    open spec fn held_by(self, holder: isize) -> bool {
        holder == self
    }

    fn into_arg_holder(self) -> isize {
        self
    }
}

impl<'a> IntoArgHolder for &'a isize {
    type Target = &'a isize;

    open spec fn held_by(self, holder: &'a isize) -> bool {
        holder == self
    }

    fn into_arg_holder(self) -> &'a isize {
        self
    }
}

impl ArgIntoRef for isize {
    type Target = isize;

    open spec fn target(&self) -> isize {
        *self
    }

    open spec fn releasable(&self, heap: &ObjectHeap) -> bool {
        true
    }

    open spec fn released(&self, before: &ObjectHeap, after: &ObjectHeap) -> bool {
        *after == *before
    }

    fn to_ref(&self) -> &isize {
        self
    }

    fn give_up(self, heap: &mut ObjectHeap) {
    }
}

impl ArgIntoRef for &isize {
    type Target = isize;

    open spec fn target(&self) -> isize {
        **self
    }

    open spec fn releasable(&self, heap: &ObjectHeap) -> bool {
        true
    }

    open spec fn released(&self, before: &ObjectHeap, after: &ObjectHeap) -> bool {
        *after == *before
    }

    fn to_ref(&self) -> &isize {
        *self
    }

    fn give_up(self, heap: &mut ObjectHeap) {
    }
}

impl IntoArgHolder for u8 {
    type Target = u8;

    open spec fn held_by(self, holder: u8) -> bool {
        holder == self
    }

    fn into_arg_holder(self) -> u8 {
        self
    }
}

impl<'a> IntoArgHolder for &'a u8 {
    type Target = &'a u8;

    open spec fn held_by(self, holder: &'a u8) -> bool {
        holder == self
    }

    fn into_arg_holder(self) -> &'a u8 {
        self
    }
}

impl ArgIntoRef for u8 {
    type Target = u8;

    open spec fn target(&self) -> u8 {
        *self
    }

    open spec fn releasable(&self, heap: &ObjectHeap) -> bool {
        true
    }

    open spec fn released(&self, before: &ObjectHeap, after: &ObjectHeap) -> bool {
        *after == *before
    }

    fn to_ref(&self) -> &u8 {
        self
    }

    fn give_up(self, heap: &mut ObjectHeap) {
    }
}

impl ArgIntoRef for &u8 {
    type Target = u8;

    open spec fn target(&self) -> u8 {
        **self
    }

    open spec fn releasable(&self, heap: &ObjectHeap) -> bool {
        true
    }

    open spec fn released(&self, before: &ObjectHeap, after: &ObjectHeap) -> bool {
        *after == *before
    }

    fn to_ref(&self) -> &u8 {
        *self
    }

    fn give_up(self, heap: &mut ObjectHeap) {
    }
}

impl IntoArgHolder for u16 {
    type Target = u16;

    open spec fn held_by(self, holder: u16) -> bool {
        holder == self
    }

    fn into_arg_holder(self) -> u16 {
        self
    }
}

impl<'a> IntoArgHolder for &'a u16 {
    type Target = &'a u16;

    open spec fn held_by(self, holder: &'a u16) -> bool {
        holder == self
    }

    fn into_arg_holder(self) -> &'a u16 {
        self
    }
}

impl ArgIntoRef for u16 {
    type Target = u16;

    open spec fn target(&self) -> u16 {
        *self
    }

    open spec fn releasable(&self, heap: &ObjectHeap) -> bool {
        true
    }

    open spec fn released(&self, before: &ObjectHeap, after: &ObjectHeap) -> bool {
        *after == *before
    }

    fn to_ref(&self) -> &u16 {
        self
    }

    fn give_up(self, heap: &mut ObjectHeap) {
    }
}

impl ArgIntoRef for &u16 {
    type Target = u16;

    open spec fn target(&self) -> u16 {
        **self
    }

    open spec fn releasable(&self, heap: &ObjectHeap) -> bool {
        true
    }

    open spec fn released(&self, before: &ObjectHeap, after: &ObjectHeap) -> bool {
        *after == *before
    }

    fn to_ref(&self) -> &u16 {
        *self
    }

    fn give_up(self, heap: &mut ObjectHeap) {
    }
}

impl IntoArgHolder for u32 {
    type Target = u32;

    open spec fn held_by(self, holder: u32) -> bool {
        holder == self
    }

    fn into_arg_holder(self) -> u32 {
        self
    }
}

impl<'a> IntoArgHolder for &'a u32 {
    type Target = &'a u32;

    open spec fn held_by(self, holder: &'a u32) -> bool {
        holder == self
    }

    fn into_arg_holder(self) -> &'a u32 {
        self
    }
}

impl ArgIntoRef for u32 {
    type Target = u32;

    open spec fn target(&self) -> u32 {
        *self
    }

    open spec fn releasable(&self, heap: &ObjectHeap) -> bool {
        true
    }

    open spec fn released(&self, before: &ObjectHeap, after: &ObjectHeap) -> bool {
        *after == *before
    }

    fn to_ref(&self) -> &u32 {
        self
    }

    fn give_up(self, heap: &mut ObjectHeap) {
    }
}

impl ArgIntoRef for &u32 {
    type Target = u32;

    open spec fn target(&self) -> u32 {
        **self
    }

    open spec fn releasable(&self, heap: &ObjectHeap) -> bool {
        true
    }

    open spec fn released(&self, before: &ObjectHeap, after: &ObjectHeap) -> bool {
        *after == *before
    }

    fn to_ref(&self) -> &u32 {
        *self
    }

    fn give_up(self, heap: &mut ObjectHeap) {
    }
}

impl IntoArgHolder for u64 {
    type Target = u64;

    open spec fn held_by(self, holder: u64) -> bool {
        holder == self
    }

    fn into_arg_holder(self) -> u64 {
        self
    }
}

impl<'a> IntoArgHolder for &'a u64 {
    type Target = &'a u64;

    open spec fn held_by(self, holder: &'a u64) -> bool {
        holder == self
    }

    fn into_arg_holder(self) -> &'a u64 {
        self
    }
}

impl ArgIntoRef for u64 {
    type Target = u64;

    open spec fn target(&self) -> u64 {
        *self
    }

    open spec fn releasable(&self, heap: &ObjectHeap) -> bool {
        true
    }

    open spec fn released(&self, before: &ObjectHeap, after: &ObjectHeap) -> bool {
        *after == *before
    }

    fn to_ref(&self) -> &u64 {
        self
    }

    fn give_up(self, heap: &mut ObjectHeap) {
    }
}

impl ArgIntoRef for &u64 {
    type Target = u64;

    open spec fn target(&self) -> u64 {
        **self
    }

    open spec fn releasable(&self, heap: &ObjectHeap) -> bool {
        true
    }

    open spec fn released(&self, before: &ObjectHeap, after: &ObjectHeap) -> bool {
        *after == *before
    }

    fn to_ref(&self) -> &u64 {
        *self
    }

    fn give_up(self, heap: &mut ObjectHeap) {
    }
}

impl IntoArgHolder for usize {
    type Target = usize;

    open spec fn held_by(self, holder: usize) -> bool {
        holder == self
    }

    fn into_arg_holder(self) -> usize {
        self
    }
}

impl<'a> IntoArgHolder for &'a usize {
    type Target = &'a usize;

    open spec fn held_by(self, holder: &'a usize) -> bool {
        holder == self
    }

    fn into_arg_holder(self) -> &'a usize {
        self
    }
}

impl ArgIntoRef for usize {
    type Target = usize;

    open spec fn target(&self) -> usize {
        *self
    }

    open spec fn releasable(&self, heap: &ObjectHeap) -> bool {
        true
    }

    open spec fn released(&self, before: &ObjectHeap, after: &ObjectHeap) -> bool {
        *after == *before
    }

    fn to_ref(&self) -> &usize {
        self
    }

    fn give_up(self, heap: &mut ObjectHeap) {
    }
}

impl ArgIntoRef for &usize {
    type Target = usize;

    open spec fn target(&self) -> usize {
        **self
    }

    open spec fn releasable(&self, heap: &ObjectHeap) -> bool {
        true
    }

    open spec fn released(&self, before: &ObjectHeap, after: &ObjectHeap) -> bool {
        *after == *before
    }

    fn to_ref(&self) -> &usize {
        *self
    }

    fn give_up(self, heap: &mut ObjectHeap) {
    }
}

impl IntoArgHolder for String {
    type Target = String;

    open spec fn held_by(self, holder: String) -> bool {
        holder == self
    }

    fn into_arg_holder(self) -> String {
        self
    }
}

impl<'a> IntoArgHolder for &'a String {
    type Target = &'a String;

    open spec fn held_by(self, holder: &'a String) -> bool {
        holder == self
    }

    fn into_arg_holder(self) -> &'a String {
        self
    }
}

impl ArgIntoRef for String {
    type Target = String;

    open spec fn target(&self) -> String {
        *self
    }

    open spec fn releasable(&self, heap: &ObjectHeap) -> bool {
        true
    }

    open spec fn released(&self, before: &ObjectHeap, after: &ObjectHeap) -> bool {
        *after == *before
    }

    fn to_ref(&self) -> &String {
        self
    }

    fn give_up(self, heap: &mut ObjectHeap) {
    }
}

impl ArgIntoRef for &String {
    type Target = String;

    open spec fn target(&self) -> String {
        **self
    }

    open spec fn releasable(&self, heap: &ObjectHeap) -> bool {
        true
    }

    open spec fn released(&self, before: &ObjectHeap, after: &ObjectHeap) -> bool {
        *after == *before
    }

    fn to_ref(&self) -> &String {
        *self
    }

    fn give_up(self, heap: &mut ObjectHeap) {
    }
}

impl IntoArgHolder for Vec<u8> {
    type Target = Vec<u8>;

    open spec fn held_by(self, holder: Vec<u8>) -> bool {
        holder == self
    }

    fn into_arg_holder(self) -> Vec<u8> {
        self
    }
}

impl<'a> IntoArgHolder for &'a Vec<u8> {
    type Target = &'a Vec<u8>;

    open spec fn held_by(self, holder: &'a Vec<u8>) -> bool {
        holder == self
    }

    fn into_arg_holder(self) -> &'a Vec<u8> {
        self
    }
}

impl ArgIntoRef for Vec<u8> {
    type Target = Vec<u8>;

    open spec fn target(&self) -> Vec<u8> {
        *self
    }

    open spec fn releasable(&self, heap: &ObjectHeap) -> bool {
        true
    }

    open spec fn released(&self, before: &ObjectHeap, after: &ObjectHeap) -> bool {
        *after == *before
    }

    fn to_ref(&self) -> &Vec<u8> {
        self
    }

    fn give_up(self, heap: &mut ObjectHeap) {
    }
}

impl ArgIntoRef for &Vec<u8> {
    type Target = Vec<u8>;

    open spec fn target(&self) -> Vec<u8> {
        **self
    }

    open spec fn releasable(&self, heap: &ObjectHeap) -> bool {
        true
    }

    open spec fn released(&self, before: &ObjectHeap, after: &ObjectHeap) -> bool {
        *after == *before
    }

    fn to_ref(&self) -> &Vec<u8> {
        *self
    }

    fn give_up(self, heap: &mut ObjectHeap) {
    }
}

impl IntoArgHolder for Tensor {
    type Target = Tensor;

    open spec fn held_by(self, holder: Tensor) -> bool {
        holder == self
    }

    fn into_arg_holder(self) -> Tensor {
        self
    }
}

impl<'a> IntoArgHolder for &'a Tensor {
    type Target = &'a Tensor;

    open spec fn held_by(self, holder: &'a Tensor) -> bool {
        holder == self
    }

    fn into_arg_holder(self) -> &'a Tensor {
        self
    }
}

impl ArgIntoRef for Tensor {
    type Target = Tensor;

    open spec fn target(&self) -> Tensor {
        *self
    }

    open spec fn releasable(&self, heap: &ObjectHeap) -> bool {
        self.data.ptr != 0 ==> heap.alive(self.data.ptr)
    }

    open spec fn released(&self, before: &ObjectHeap, after: &ObjectHeap) -> bool {
        given_up(before, after, self.data.ptr)
    }

    fn to_ref(&self) -> &Tensor {
        self
    }

    fn give_up(self, heap: &mut ObjectHeap) {
        heap.release(ObjectArc::into_raw(self.data));
    }
}

impl ArgIntoRef for &Tensor {
    type Target = Tensor;

    open spec fn target(&self) -> Tensor {
        **self
    }

    open spec fn releasable(&self, heap: &ObjectHeap) -> bool {
        true
    }

    open spec fn released(&self, before: &ObjectHeap, after: &ObjectHeap) -> bool {
        *after == *before
    }

    fn to_ref(&self) -> &Tensor {
        *self
    }

    fn give_up(self, heap: &mut ObjectHeap) {
    }
}

impl IntoArgHolder for ObjectRef {
    type Target = ObjectRef;

    open spec fn held_by(self, holder: ObjectRef) -> bool {
        holder == self
    }

    fn into_arg_holder(self) -> ObjectRef {
        self
    }
}

impl<'a> IntoArgHolder for &'a ObjectRef {
    type Target = &'a ObjectRef;

    open spec fn held_by(self, holder: &'a ObjectRef) -> bool {
        holder == self
    }

    fn into_arg_holder(self) -> &'a ObjectRef {
        self
    }
}

impl ArgIntoRef for ObjectRef {
    type Target = ObjectRef;

    open spec fn target(&self) -> ObjectRef {
        *self
    }

    open spec fn releasable(&self, heap: &ObjectHeap) -> bool {
        self.data.ptr != 0 ==> heap.alive(self.data.ptr)
    }

    open spec fn released(&self, before: &ObjectHeap, after: &ObjectHeap) -> bool {
        given_up(before, after, self.data.ptr)
    }

    fn to_ref(&self) -> &ObjectRef {
        self
    }

    fn give_up(self, heap: &mut ObjectHeap) {
        heap.release(ObjectArc::into_raw(self.data));
    }
}

impl ArgIntoRef for &ObjectRef {
    type Target = ObjectRef;

    open spec fn target(&self) -> ObjectRef {
        **self
    }

    open spec fn releasable(&self, heap: &ObjectHeap) -> bool {
        true
    }

    open spec fn released(&self, before: &ObjectHeap, after: &ObjectHeap) -> bool {
        *after == *before
    }

    fn to_ref(&self) -> &ObjectRef {
        *self
    }

    fn give_up(self, heap: &mut ObjectHeap) {
    }
}

impl IntoArgHolder for Function {
    type Target = Function;

    open spec fn held_by(self, holder: Function) -> bool {
        holder == self
    }

    fn into_arg_holder(self) -> Function {
        self
    }
}

impl<'a> IntoArgHolder for &'a Function {
    type Target = &'a Function;

    open spec fn held_by(self, holder: &'a Function) -> bool {
        holder == self
    }

    fn into_arg_holder(self) -> &'a Function {
        self
    }
}

impl ArgIntoRef for Function {
    type Target = Function;

    open spec fn target(&self) -> Function {
        *self
    }

    open spec fn releasable(&self, heap: &ObjectHeap) -> bool {
        self.data.ptr != 0 ==> heap.alive(self.data.ptr)
    }

    open spec fn released(&self, before: &ObjectHeap, after: &ObjectHeap) -> bool {
        given_up(before, after, self.data.ptr)
    }

    fn to_ref(&self) -> &Function {
        self
    }

    fn give_up(self, heap: &mut ObjectHeap) {
        heap.release(ObjectArc::into_raw(self.data));
    }
}

impl ArgIntoRef for &Function {
    type Target = Function;

    open spec fn target(&self) -> Function {
        **self
    }

    open spec fn releasable(&self, heap: &ObjectHeap) -> bool {
        true
    }

    open spec fn released(&self, before: &ObjectHeap, after: &ObjectHeap) -> bool {
        *after == *before
    }

    fn to_ref(&self) -> &Function {
        *self
    }

    fn give_up(self, heap: &mut ObjectHeap) {
    }
}

impl IntoArgHolder for Module {
    type Target = Module;

    open spec fn held_by(self, holder: Module) -> bool {
        holder == self
    }

    fn into_arg_holder(self) -> Module {
        self
    }
}

impl<'a> IntoArgHolder for &'a Module {
    type Target = &'a Module;

    open spec fn held_by(self, holder: &'a Module) -> bool {
        holder == self
    }

    fn into_arg_holder(self) -> &'a Module {
        self
    }
}

impl ArgIntoRef for Module {
    type Target = Module;

    open spec fn target(&self) -> Module {
        *self
    }

    open spec fn releasable(&self, heap: &ObjectHeap) -> bool {
        self.data.ptr != 0 ==> heap.alive(self.data.ptr)
    }

    open spec fn released(&self, before: &ObjectHeap, after: &ObjectHeap) -> bool {
        given_up(before, after, self.data.ptr)
    }

    fn to_ref(&self) -> &Module {
        self
    }

    fn give_up(self, heap: &mut ObjectHeap) {
        heap.release(ObjectArc::into_raw(self.data));
    }
}

impl ArgIntoRef for &Module {
    type Target = Module;

    open spec fn target(&self) -> Module {
        **self
    }

    open spec fn releasable(&self, heap: &ObjectHeap) -> bool {
        true
    }

    open spec fn released(&self, before: &ObjectHeap, after: &ObjectHeap) -> bool {
        *after == *before
    }

    fn to_ref(&self) -> &Module {
        *self
    }

    fn give_up(self, heap: &mut ObjectHeap) {
    }
}

/// Conversion of each argument of a tuple to the type that holds it.
pub trait IntoArgHolderTuple: Sized {
    type Target;

    spec fn all_held_by(self, holders: Self::Target) -> bool;

    fn into_arg_holder_tuple(self) -> (holders: Self::Target)
        ensures
            self.all_held_by(holders),
    ;
}

impl IntoArgHolderTuple for () {
    type Target = ();

    open spec fn all_held_by(self, holders: Self::Target) -> bool {
        true
    }

    fn into_arg_holder_tuple(self) -> Self::Target {
        ()
    }
}

impl<T0: IntoArgHolder> IntoArgHolderTuple for (T0,) {
    type Target = (T0::Target,);

    open spec fn all_held_by(self, holders: Self::Target) -> bool {
        &&& self.0.held_by(holders.0)
    }

    fn into_arg_holder_tuple(self) -> Self::Target {
        (self.0.into_arg_holder(),)
    }
}

impl<T0: IntoArgHolder, T1: IntoArgHolder> IntoArgHolderTuple for (T0, T1) {
    type Target = (T0::Target, T1::Target);

    open spec fn all_held_by(self, holders: Self::Target) -> bool {
        &&& self.0.held_by(holders.0)
        &&& self.1.held_by(holders.1)
    }

    fn into_arg_holder_tuple(self) -> Self::Target {
        (self.0.into_arg_holder(), self.1.into_arg_holder())
    }
}

impl<T0: IntoArgHolder, T1: IntoArgHolder, T2: IntoArgHolder> IntoArgHolderTuple for (T0, T1, T2) {
    type Target = (T0::Target, T1::Target, T2::Target);

    open spec fn all_held_by(self, holders: Self::Target) -> bool {
        &&& self.0.held_by(holders.0)
        &&& self.1.held_by(holders.1)
        &&& self.2.held_by(holders.2)
    }

    fn into_arg_holder_tuple(self) -> Self::Target {
        (self.0.into_arg_holder(), self.1.into_arg_holder(), self.2.into_arg_holder())
    }
}

impl<
    T0: IntoArgHolder,
    T1: IntoArgHolder,
    T2: IntoArgHolder,
    T3: IntoArgHolder,
> IntoArgHolderTuple for (T0, T1, T2, T3) {
    type Target = (T0::Target, T1::Target, T2::Target, T3::Target);

    open spec fn all_held_by(self, holders: Self::Target) -> bool {
        &&& self.0.held_by(holders.0)
        &&& self.1.held_by(holders.1)
        &&& self.2.held_by(holders.2)
        &&& self.3.held_by(holders.3)
    }

    fn into_arg_holder_tuple(self) -> Self::Target {
        (
            self.0.into_arg_holder(),
            self.1.into_arg_holder(),
            self.2.into_arg_holder(),
            self.3.into_arg_holder(),
        )
    }
}

impl<
    T0: IntoArgHolder,
    T1: IntoArgHolder,
    T2: IntoArgHolder,
    T3: IntoArgHolder,
    T4: IntoArgHolder,
> IntoArgHolderTuple for (T0, T1, T2, T3, T4) {
    type Target = (T0::Target, T1::Target, T2::Target, T3::Target, T4::Target);

    open spec fn all_held_by(self, holders: Self::Target) -> bool {
        &&& self.0.held_by(holders.0)
        &&& self.1.held_by(holders.1)
        &&& self.2.held_by(holders.2)
        &&& self.3.held_by(holders.3)
        &&& self.4.held_by(holders.4)
    }

    fn into_arg_holder_tuple(self) -> Self::Target {
        (
            self.0.into_arg_holder(),
            self.1.into_arg_holder(),
            self.2.into_arg_holder(),
            self.3.into_arg_holder(),
            self.4.into_arg_holder(),
        )
    }
}

impl<
    T0: IntoArgHolder,
    T1: IntoArgHolder,
    T2: IntoArgHolder,
    T3: IntoArgHolder,
    T4: IntoArgHolder,
    T5: IntoArgHolder,
> IntoArgHolderTuple for (T0, T1, T2, T3, T4, T5) {
    type Target = (T0::Target, T1::Target, T2::Target, T3::Target, T4::Target, T5::Target);

    open spec fn all_held_by(self, holders: Self::Target) -> bool {
        &&& self.0.held_by(holders.0)
        &&& self.1.held_by(holders.1)
        &&& self.2.held_by(holders.2)
        &&& self.3.held_by(holders.3)
        &&& self.4.held_by(holders.4)
        &&& self.5.held_by(holders.5)
    }

    fn into_arg_holder_tuple(self) -> Self::Target {
        (
            self.0.into_arg_holder(),
            self.1.into_arg_holder(),
            self.2.into_arg_holder(),
            self.3.into_arg_holder(),
            self.4.into_arg_holder(),
            self.5.into_arg_holder(),
        )
    }
}

impl<
    T0: IntoArgHolder,
    T1: IntoArgHolder,
    T2: IntoArgHolder,
    T3: IntoArgHolder,
    T4: IntoArgHolder,
    T5: IntoArgHolder,
    T6: IntoArgHolder,
> IntoArgHolderTuple for (T0, T1, T2, T3, T4, T5, T6) {
    type Target = (
        T0::Target,
        T1::Target,
        T2::Target,
        T3::Target,
        T4::Target,
        T5::Target,
        T6::Target,
    );

    open spec fn all_held_by(self, holders: Self::Target) -> bool {
        &&& self.0.held_by(holders.0)
        &&& self.1.held_by(holders.1)
        &&& self.2.held_by(holders.2)
        &&& self.3.held_by(holders.3)
        &&& self.4.held_by(holders.4)
        &&& self.5.held_by(holders.5)
        &&& self.6.held_by(holders.6)
    }

    fn into_arg_holder_tuple(self) -> Self::Target {
        (
            self.0.into_arg_holder(),
            self.1.into_arg_holder(),
            self.2.into_arg_holder(),
            self.3.into_arg_holder(),
            self.4.into_arg_holder(),
            self.5.into_arg_holder(),
            self.6.into_arg_holder(),
        )
    }
}

impl<
    T0: IntoArgHolder,
    T1: IntoArgHolder,
    T2: IntoArgHolder,
    T3: IntoArgHolder,
    T4: IntoArgHolder,
    T5: IntoArgHolder,
    T6: IntoArgHolder,
    T7: IntoArgHolder,
> IntoArgHolderTuple for (T0, T1, T2, T3, T4, T5, T6, T7) {
    type Target = (
        T0::Target,
        T1::Target,
        T2::Target,
        T3::Target,
        T4::Target,
        T5::Target,
        T6::Target,
        T7::Target,
    );

    open spec fn all_held_by(self, holders: Self::Target) -> bool {
        &&& self.0.held_by(holders.0)
        &&& self.1.held_by(holders.1)
        &&& self.2.held_by(holders.2)
        &&& self.3.held_by(holders.3)
        &&& self.4.held_by(holders.4)
        &&& self.5.held_by(holders.5)
        &&& self.6.held_by(holders.6)
        &&& self.7.held_by(holders.7)
    }

    fn into_arg_holder_tuple(self) -> Self::Target {
        (
            self.0.into_arg_holder(),
            self.1.into_arg_holder(),
            self.2.into_arg_holder(),
            self.3.into_arg_holder(),
            self.4.into_arg_holder(),
            self.5.into_arg_holder(),
            self.6.into_arg_holder(),
            self.7.into_arg_holder(),
        )
    }
}

//-----------------------------------------------------
// Laws
//-----------------------------------------------------
/// Arguments that own nothing: they are held as what they are, and giving them up
/// costs nothing.
pub trait PlainArgument: IntoArgHolder<Target = Self> + ArgIntoRef<Target = Self> {
    proof fn law_plain_argument_is_kept(self, holder: Self, before: &ObjectHeap, after: &ObjectHeap)
        ensures
            self.held_by(holder) <==> holder == self,
            self.target() == self,
            self.releasable(before),
            self.released(before, after) <==> *after == *before,
    ;
}

/// Arguments that own a reference to an object: they are held as that reference, which
/// is given up once.
pub trait OwningArgument: IntoArgHolder<Target = Self> + ArgIntoRef<
    Target = Self,
> + ObjectRefCore {
    proof fn law_owning_argument_is_given_up(
        self,
        holder: Self,
        before: &ObjectHeap,
        after: &ObjectHeap,
    )
        ensures
            self.held_by(holder) <==> holder == self,
            self.target() == self,
            self.releasable(before) <==> self.address() == 0 || before.alive(self.address()),
            self.released(before, after) <==> given_up(before, after, self.address()),
    ;
}

impl PlainArgument for bool {
    proof fn law_plain_argument_is_kept(
        self,
        holder: Self,
        before: &ObjectHeap,
        after: &ObjectHeap,
    ) {
    }
}

impl PlainArgument for i8 {
    proof fn law_plain_argument_is_kept(
        self,
        holder: Self,
        before: &ObjectHeap,
        after: &ObjectHeap,
    ) {
    }
}

impl PlainArgument for i16 {
    proof fn law_plain_argument_is_kept(
        self,
        holder: Self,
        before: &ObjectHeap,
        after: &ObjectHeap,
    ) {
    }
}

impl PlainArgument for i32 {
    proof fn law_plain_argument_is_kept(
        self,
        holder: Self,
        before: &ObjectHeap,
        after: &ObjectHeap,
    ) {
    }
}

impl PlainArgument for i64 {
    proof fn law_plain_argument_is_kept(
        self,
        holder: Self,
        before: &ObjectHeap,
        after: &ObjectHeap,
    ) {
    }
}

impl PlainArgument for isize {
    proof fn law_plain_argument_is_kept(
        self,
        holder: Self,
        before: &ObjectHeap,
        after: &ObjectHeap,
    ) {
    }
}

impl PlainArgument for u8 {
    proof fn law_plain_argument_is_kept(
        self,
        holder: Self,
        before: &ObjectHeap,
        after: &ObjectHeap,
    ) {
    }
}

impl PlainArgument for u16 {
    proof fn law_plain_argument_is_kept(
        self,
        holder: Self,
        before: &ObjectHeap,
        after: &ObjectHeap,
    ) {
    }
}

impl PlainArgument for u32 {
    proof fn law_plain_argument_is_kept(
        self,
        holder: Self,
        before: &ObjectHeap,
        after: &ObjectHeap,
    ) {
    }
}

impl PlainArgument for u64 {
    proof fn law_plain_argument_is_kept(
        self,
        holder: Self,
        before: &ObjectHeap,
        after: &ObjectHeap,
    ) {
    }
}

impl PlainArgument for usize {
    proof fn law_plain_argument_is_kept(
        self,
        holder: Self,
        before: &ObjectHeap,
        after: &ObjectHeap,
    ) {
    }
}

impl PlainArgument for String {
    proof fn law_plain_argument_is_kept(
        self,
        holder: Self,
        before: &ObjectHeap,
        after: &ObjectHeap,
    ) {
    }
}

impl PlainArgument for Vec<u8> {
    proof fn law_plain_argument_is_kept(
        self,
        holder: Self,
        before: &ObjectHeap,
        after: &ObjectHeap,
    ) {
    }
}

impl OwningArgument for Tensor {
    proof fn law_owning_argument_is_given_up(
        self,
        holder: Self,
        before: &ObjectHeap,
        after: &ObjectHeap,
    ) {
    }
}

impl OwningArgument for ObjectRef {
    proof fn law_owning_argument_is_given_up(
        self,
        holder: Self,
        before: &ObjectHeap,
        after: &ObjectHeap,
    ) {
    }
}

impl OwningArgument for Function {
    proof fn law_owning_argument_is_given_up(
        self,
        holder: Self,
        before: &ObjectHeap,
        after: &ObjectHeap,
    ) {
    }
}

impl OwningArgument for Module {
    proof fn law_owning_argument_is_given_up(
        self,
        holder: Self,
        before: &ObjectHeap,
        after: &ObjectHeap,
    ) {
    }
}

/// An argument that is only borrowed is not given up.
pub proof fn law_borrowed_arguments_are_not_given_up(
    tensor: &Tensor,
    object: &ObjectRef,
    function: &Function,
    module: &Module,
    before: &ObjectHeap,
    after: &ObjectHeap,
)
    ensures
        <&Tensor as ArgIntoRef>::target(&tensor) == *tensor,
        <&ObjectRef as ArgIntoRef>::target(&object) == *object,
        <&Function as ArgIntoRef>::target(&function) == *function,
        <&Module as ArgIntoRef>::target(&module) == *module,
        <&Tensor as ArgIntoRef>::released(&tensor, before, after) <==> *after == *before,
        <&ObjectRef as ArgIntoRef>::released(&object, before, after) <==> *after == *before,
        <&Function as ArgIntoRef>::released(&function, before, after) <==> *after == *before,
        <&Module as ArgIntoRef>::released(&module, before, after) <==> *after == *before,
{
}

/// Text and bytes are held as copies of what they are.
pub proof fn law_text_is_held_as_it_is(
    text: &str,
    held_text: String,
    bytes: &[u8],
    held_bytes: Vec<u8>,
)
    ensures
        text.held_by(held_text) <==> held_text@ == text@,
        bytes.held_by(held_bytes) <==> held_bytes@ == bytes@,
{
}

/// A tuple of arguments to be held, seen as its first elements and its last.
///
/// Each is held on its own, in its own place.
pub trait HoldersAndLast: IntoArgHolderTuple {
    type Front: IntoArgHolderTuple;

    type Last: IntoArgHolder;

    spec fn front(self) -> Self::Front;

    spec fn last(self) -> Self::Last;

    spec fn front_of(holders: Self::Target) -> <Self::Front as IntoArgHolderTuple>::Target;

    spec fn last_of(holders: Self::Target) -> <Self::Last as IntoArgHolder>::Target;

    /// The last element is held in the last place, and the others in those before it.
    proof fn law_last_element_is_held_last(self, holders: Self::Target)
        ensures
            self.all_held_by(holders) <==> self.front().all_held_by(Self::front_of(holders))
                && self.last().held_by(Self::last_of(holders)),
    ;
}

impl<T0: IntoArgHolder> HoldersAndLast for (T0,) {
    type Front = ();

    type Last = T0;

    open spec fn front(self) -> () {
        ()
    }

    open spec fn last(self) -> T0 {
        self.0
    }

    open spec fn front_of(holders: Self::Target) -> () {
        ()
    }

    open spec fn last_of(holders: Self::Target) -> T0::Target {
        holders.0
    }

    proof fn law_last_element_is_held_last(self, holders: Self::Target) {
    }
}

impl<T0: IntoArgHolder, T1: IntoArgHolder> HoldersAndLast for (T0, T1) {
    type Front = (T0,);

    type Last = T1;

    open spec fn front(self) -> (T0,) {
        (self.0,)
    }

    open spec fn last(self) -> T1 {
        self.1
    }

    open spec fn front_of(holders: Self::Target) -> (T0::Target,) {
        (holders.0,)
    }

    open spec fn last_of(holders: Self::Target) -> T1::Target {
        holders.1
    }

    proof fn law_last_element_is_held_last(self, holders: Self::Target) {
    }
}

impl<T0: IntoArgHolder, T1: IntoArgHolder, T2: IntoArgHolder> HoldersAndLast for (T0, T1, T2) {
    type Front = (T0, T1);

    type Last = T2;

    open spec fn front(self) -> (T0, T1) {
        (self.0, self.1)
    }

    open spec fn last(self) -> T2 {
        self.2
    }

    open spec fn front_of(holders: Self::Target) -> (T0::Target, T1::Target) {
        (holders.0, holders.1)
    }

    open spec fn last_of(holders: Self::Target) -> T2::Target {
        holders.2
    }

    proof fn law_last_element_is_held_last(self, holders: Self::Target) {
    }
}

impl<
    T0: IntoArgHolder,
    T1: IntoArgHolder,
    T2: IntoArgHolder,
    T3: IntoArgHolder,
> HoldersAndLast for (T0, T1, T2, T3) {
    type Front = (T0, T1, T2);

    type Last = T3;

    open spec fn front(self) -> (T0, T1, T2) {
        (self.0, self.1, self.2)
    }

    open spec fn last(self) -> T3 {
        self.3
    }

    open spec fn front_of(holders: Self::Target) -> (T0::Target, T1::Target, T2::Target) {
        (holders.0, holders.1, holders.2)
    }

    open spec fn last_of(holders: Self::Target) -> T3::Target {
        holders.3
    }

    proof fn law_last_element_is_held_last(self, holders: Self::Target) {
    }
}

impl<
    T0: IntoArgHolder,
    T1: IntoArgHolder,
    T2: IntoArgHolder,
    T3: IntoArgHolder,
    T4: IntoArgHolder,
> HoldersAndLast for (T0, T1, T2, T3, T4) {
    type Front = (T0, T1, T2, T3);

    type Last = T4;

    open spec fn front(self) -> (T0, T1, T2, T3) {
        (self.0, self.1, self.2, self.3)
    }

    open spec fn last(self) -> T4 {
        self.4
    }

    open spec fn front_of(holders: Self::Target) -> (T0::Target, T1::Target, T2::Target, T3::Target) {
        (holders.0, holders.1, holders.2, holders.3)
    }

    open spec fn last_of(holders: Self::Target) -> T4::Target {
        holders.4
    }

    proof fn law_last_element_is_held_last(self, holders: Self::Target) {
    }
}

impl<
    T0: IntoArgHolder,
    T1: IntoArgHolder,
    T2: IntoArgHolder,
    T3: IntoArgHolder,
    T4: IntoArgHolder,
    T5: IntoArgHolder,
> HoldersAndLast for (T0, T1, T2, T3, T4, T5) {
    type Front = (T0, T1, T2, T3, T4);

    type Last = T5;

    open spec fn front(self) -> (T0, T1, T2, T3, T4) {
        (self.0, self.1, self.2, self.3, self.4)
    }

    open spec fn last(self) -> T5 {
        self.5
    }

    open spec fn front_of(holders: Self::Target) -> (T0::Target, T1::Target, T2::Target, T3::Target, T4::Target) {
        (holders.0, holders.1, holders.2, holders.3, holders.4)
    }

    open spec fn last_of(holders: Self::Target) -> T5::Target {
        holders.5
    }

    proof fn law_last_element_is_held_last(self, holders: Self::Target) {
    }
}

impl<
    T0: IntoArgHolder,
    T1: IntoArgHolder,
    T2: IntoArgHolder,
    T3: IntoArgHolder,
    T4: IntoArgHolder,
    T5: IntoArgHolder,
    T6: IntoArgHolder,
> HoldersAndLast for (T0, T1, T2, T3, T4, T5, T6) {
    type Front = (T0, T1, T2, T3, T4, T5);

    type Last = T6;

    open spec fn front(self) -> (T0, T1, T2, T3, T4, T5) {
        (self.0, self.1, self.2, self.3, self.4, self.5)
    }

    open spec fn last(self) -> T6 {
        self.6
    }

    open spec fn front_of(holders: Self::Target) -> (T0::Target, T1::Target, T2::Target, T3::Target, T4::Target, T5::Target) {
        (holders.0, holders.1, holders.2, holders.3, holders.4, holders.5)
    }

    open spec fn last_of(holders: Self::Target) -> T6::Target {
        holders.6
    }

    proof fn law_last_element_is_held_last(self, holders: Self::Target) {
    }
}

impl<
    T0: IntoArgHolder,
    T1: IntoArgHolder,
    T2: IntoArgHolder,
    T3: IntoArgHolder,
    T4: IntoArgHolder,
    T5: IntoArgHolder,
    T6: IntoArgHolder,
    T7: IntoArgHolder,
> HoldersAndLast for (T0, T1, T2, T3, T4, T5, T6, T7) {
    type Front = (T0, T1, T2, T3, T4, T5, T6);

    type Last = T7;

    open spec fn front(self) -> (T0, T1, T2, T3, T4, T5, T6) {
        (self.0, self.1, self.2, self.3, self.4, self.5, self.6)
    }

    open spec fn last(self) -> T7 {
        self.7
    }

    open spec fn front_of(holders: Self::Target) -> (T0::Target, T1::Target, T2::Target, T3::Target, T4::Target, T5::Target, T6::Target) {
        (holders.0, holders.1, holders.2, holders.3, holders.4, holders.5, holders.6)
    }

    open spec fn last_of(holders: Self::Target) -> T7::Target {
        holders.7
    }

    proof fn law_last_element_is_held_last(self, holders: Self::Target) {
    }
}

} // verus!
