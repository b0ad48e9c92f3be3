//! Bookmarked connections (a remote host, a container, or both).

use vstd::prelude::*;

use crate::port::{copy_opt, opt_view};

verus! {

/// A bookmarked session: where to scan (a remote host, a container, or both).
#[derive(Debug, Clone)]
pub struct Connection {
    pub name: String,
    pub remote_host: Option<String>,
    pub docker_target: Option<String>,
}

pub struct ConnectionView {
    pub name: Seq<char>,
    pub remote_host: Option<Seq<char>>,
    pub docker_target: Option<Seq<char>>,
}

impl View for Connection {
    type V = ConnectionView;

    open spec fn view(&self) -> ConnectionView {
        ConnectionView {
            name: self.name@,
            remote_host: opt_view(self.remote_host),
            docker_target: opt_view(self.docker_target),
        }
    }
}

pub open spec fn connection_views(s: Seq<Connection>) -> Seq<ConnectionView> {
    s.map_values(|c: Connection| c@)
}

pub open spec fn local_connection() -> ConnectionView {
    ConnectionView { name: "Local"@, remote_host: None, docker_target: None }
}

impl Connection {
    /// The implicit connection to the local machine.
    pub fn local() -> (r: Connection)
        ensures
            r@ == local_connection(),
    {
        Connection { name: String::from_str("Local"), remote_host: None, docker_target: None }
    }

    /// A field-by-field copy.
    pub fn copy(&self) -> (r: Connection)
        ensures
            r@ == self@,
    {
        Connection {
            name: self.name.clone(),
            remote_host: copy_opt(&self.remote_host),
            docker_target: copy_opt(&self.docker_target),
        }
    }
}

/// The user's bookmarked connections, without the implicit local one.
#[derive(Debug, Clone)]
pub struct Connections {
    pub connection: Vec<Connection>,
}

impl Default for Connections {
    fn default() -> (r: Connections)
        ensures
            r.connection@.len() == 0,
    {
        Connections { connection: Vec::new() }
    }
}

impl Connections {
    /// All connections with the local one first.
    pub fn all_with_local(&self) -> (r: Vec<Connection>)
        ensures
            connection_views(r@) == seq![local_connection()] + connection_views(self.connection@),
    {
        let mut result: Vec<Connection> = Vec::new();
        result.push(Connection::local());
        let mut i: usize = 0;
        while i < self.connection.len()
            invariant
                i <= self.connection@.len(),
                connection_views(result@) == seq![local_connection()] + connection_views(
                    self.connection@,
                ).take(i as int),
            decreases self.connection@.len() - i,
        {
            let c = self.connection[i].copy();
            proof {
                assert(connection_views(result@.push(c)) =~= connection_views(result@).push(c@));
                assert(connection_views(self.connection@).take(i + 1) =~= connection_views(
                    self.connection@,
                ).take(i as int).push(c@));
            }
            result.push(c);
            i = i + 1;
        }
        assert(connection_views(self.connection@).take(i as int) =~= connection_views(
            self.connection@,
        ));
        result
    }

    /// Appends a connection.
    pub fn add(&mut self, conn: Connection)
        ensures
            final(self).connection@ == old(self).connection@.push(conn),
    {
        self.connection.push(conn);
    }

    /// Removes the bookmark at `index` (the local connection is not counted); false when there
    /// is none.
    pub fn remove(&mut self, index: usize) -> (r: bool)
        ensures
            r == (index < old(self).connection@.len()),
            r ==> final(self).connection@ == old(self).connection@.remove(index as int),
            !r ==> final(self).connection@ == old(self).connection@,
    {
        if index < self.connection.len() {
            self.connection.remove(index);
            true
        } else {
            false
        }
    }
}

} // verus!
