//! The data exchanged between agents.

use vstd::prelude::*;

use crate::role::Role;

verus! {

/// A directed text message that belongs to one conversation.
#[derive(Debug)]
pub struct Msg<RoleType: Role> {
    pub from: RoleType,
    pub to: RoleType,
    pub msg: String,
    pub conv_id: usize,
}

/// What a message says, with its text as a sequence of characters.
pub struct MsgView<RoleType> {
    pub from: RoleType,
    pub to: RoleType,
    pub msg: Seq<char>,
    pub conv_id: usize,
}

impl<RoleType: Role> View for Msg<RoleType> {
    type V = MsgView<RoleType>;

    open spec fn view(&self) -> MsgView<RoleType> {
        MsgView { from: self.from, to: self.to, msg: self.msg@, conv_id: self.conv_id }
    }
}

impl<RoleType: Role> Clone for Msg<RoleType> {
    fn clone(&self) -> (copy: Self)
        ensures
            copy == *self,
    {
        Msg { from: self.from, to: self.to, msg: self.msg.clone(), conv_id: self.conv_id }
    }
}

/// The text that opens an exchange.
#[derive(Debug)]
pub struct SeedMsg {
    pub msg: String,
}

impl Clone for SeedMsg {
    fn clone(&self) -> (copy: Self)
        ensures
            copy == *self,
    {
        SeedMsg { msg: self.msg.clone() }
    }
}

} // verus!
