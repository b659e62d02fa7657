//! Key bindings of one input axis, and the key that triggers a destruction
//! test.

use vstd::prelude::*;

use crate::primitive_types::Key;

verus! {

/// The keys that move an axis towards its negative and its positive end.
#[derive(Debug, Copy, Clone, PartialEq, Eq, Structural)]
pub struct InputAxisData {
    negative_input: Key,
    positive_input: Key,
}

impl InputAxisData {
    /// The key bound to the negative direction.
    pub closed spec fn negative(&self) -> Key {
        self.negative_input
    }

    /// The key bound to the positive direction.
    pub closed spec fn positive(&self) -> Key {
        self.positive_input
    }

    pub fn new(negative_input: Key, positive_input: Key) -> (data: Self)
        ensures
            data.negative() == negative_input,
            data.positive() == positive_input,
    {
        InputAxisData { negative_input, positive_input }
    }

    pub fn get_positive_input(&self) -> (key: Key)
        ensures
            key == self.positive(),
    {
        self.positive_input
    }

    pub fn get_negative_input(&self) -> (key: Key)
        ensures
            key == self.negative(),
    {
        self.negative_input
    }
}

/// An input axis as a component: the keys for its negative and positive
/// directions.
#[derive(Debug, Copy, Clone, PartialEq, Eq, Structural)]
pub struct InputAxisComponent {
    negative_input: Key,
    positive_input: Key,
}

impl InputAxisComponent {
    /// The key bound to the negative direction.
    pub closed spec fn negative(&self) -> Key {
        self.negative_input
    }

    /// The key bound to the positive direction.
    pub closed spec fn positive(&self) -> Key {
        self.positive_input
    }

    pub fn new(negative_input: Key, positive_input: Key) -> (component: Self)
        ensures
            component.negative() == negative_input,
            component.positive() == positive_input,
    {
        InputAxisComponent { negative_input, positive_input }
    }

    pub fn get_positive_input(&self) -> (key: Key)
        ensures
            key == self.positive(),
    {
        self.positive_input
    }

    pub fn get_negative_input(&self) -> (key: Key)
        ensures
            key == self.negative(),
    {
        self.negative_input
    }
}

/// The key whose press destroys the tagged entity.
#[derive(Debug, Copy, Clone, PartialEq, Eq, Structural)]
pub struct DestructionTestInputData(pub Key);

/// Tags an entity for destruction testing, with the key that destroys it.
#[derive(Debug, Copy, Clone, PartialEq, Eq, Structural)]
pub struct DestructionTestInputComponent {
    input_key: Key,
}

impl DestructionTestInputComponent {
    /// The key that destroys the entity.
    pub closed spec fn key(&self) -> Key {
        self.input_key
    }

    pub fn new(input_key: Key) -> (component: Self)
        ensures
            component.key() == input_key,
    {
        DestructionTestInputComponent { input_key }
    }

    pub fn get_input_key(&self) -> (key: Key)
        ensures
            key == self.key(),
    {
        self.input_key
    }
}

} // verus!
