//! The static description of a server.

use std::collections::HashMap;
use vstd::prelude::*;

verus! {

broadcast use vstd::std_specs::hash::group_hash_axioms;

/// What a server is: its identifier, its display name and the command line
/// that starts it. Immutable once made.
#[derive(Debug, PartialEq, Eq)]
pub struct ServerInfo {
    id: u128,
    name: String,
    exec_str: String,
}

/// A server description as plain values.
pub struct ServerInfoView {
    pub id: u128,
    pub name: Seq<char>,
    pub exec_str: Seq<char>,
}

impl View for ServerInfo {
    type V = ServerInfoView;

    closed spec fn view(&self) -> ServerInfoView {
        ServerInfoView { id: self.id, name: self.name@, exec_str: self.exec_str@ }
    }
}

impl ServerInfo {
    /// Looks up the description of the server `id` among the known ones.
    pub fn fetch(known: &HashMap<u128, ServerInfo>, id: u128) -> (found: Option<&ServerInfo>)
        ensures
            match found {
                Some(info) => known@.contains_key(id) && *info == known@[id],
                None => !known@.contains_key(id),
            },
    {
        known.get(&id)
    }

    /// A description with the given identifier, name and command line.
    pub fn new(id: u128, name: String, exec_str: String) -> (info: Self)
        ensures
            info@ == (ServerInfoView { id: id, name: name@, exec_str: exec_str@ }),
    {
        ServerInfo { id, name, exec_str }
    }

    /// The command line that starts the server.
    pub fn get_exec_str(&self) -> (exec_str: &str)
        ensures
            exec_str@ == self@.exec_str,
    {
        self.exec_str.as_str()
    }

    /// The display name of the server.
    pub fn name(&self) -> (name: &str)
        ensures
            name@ == self@.name,
    {
        self.name.as_str()
    }

    /// The identifier of the server.
    pub fn uuid(&self) -> (id: &u128)
        ensures
            *id == self@.id,
    {
        &self.id
    }
}

} // verus!
