//! The description of an isolated process run, and the reading of its exit.
//!
//! A [`Container`] holds what a run is made from (image, command, bind
//! mounts, environment) and the runtime's identifier once it exists. Creating,
//! starting and removing it is the caller's work.

use vstd::prelude::*;

verus! {

#[derive(Debug, PartialEq, Eq)]
pub struct Container {
    id: Option<String>,
    image: String,
    env: Option<Vec<String>>,
    cmd: Option<Vec<String>>,
    binds: Option<Vec<String>>,
}

pub struct ContainerView {
    pub id: Option<Seq<char>>,
    pub image: Seq<char>,
    pub env: Option<Seq<Seq<char>>>,
    pub cmd: Option<Seq<Seq<char>>>,
    pub binds: Option<Seq<Seq<char>>>,
}

pub open spec fn opt_text(o: Option<String>) -> Option<Seq<char>> {
    match o {
        Some(s) => Some(s@),
        None => None,
    }
}

pub open spec fn opt_texts(o: Option<Vec<String>>) -> Option<Seq<Seq<char>>> {
    match o {
        Some(v) => Some(crate::protocol::texts(v@)),
        None => None,
    }
}

impl View for Container {
    type V = ContainerView;

    closed spec fn view(&self) -> ContainerView {
        ContainerView {
            id: opt_text(self.id),
            image: self.image@,
            env: opt_texts(self.env),
            cmd: opt_texts(self.cmd),
            binds: opt_texts(self.binds),
        }
    }
}

/// A run of `image` with nothing else set.
pub open spec fn fresh_run(image: Seq<char>) -> ContainerView {
    ContainerView { id: None, image, env: None, cmd: None, binds: None }
}

fn copy_texts(v: &Vec<String>) -> (r: Vec<String>)
    ensures
        crate::protocol::texts(r@) == crate::protocol::texts(v@),
{
    let mut r: Vec<String> = Vec::new();
    let mut k: usize = 0;
    while k < v.len()
        invariant
            k <= v@.len(),
            r@.len() == k,
            crate::protocol::texts(r@) == crate::protocol::texts(v@.subrange(0, k as int)),
        decreases v@.len() - k,
    {
        let ghost before = r@;
        let c = v[k].clone();
        assert(c@ == v@[k as int]@);
        r.push(c);
        assert(r@ =~= before.push(c));
        assert(crate::protocol::texts(r@) =~= crate::protocol::texts(v@.subrange(0, k + 1))) by {
            assert forall|j: int| 0 <= j < k + 1 implies crate::protocol::texts(r@)[j]
                == crate::protocol::texts(v@.subrange(0, k + 1))[j] by {
                if j < k {
                    assert(crate::protocol::texts(before)[j] == crate::protocol::texts(
                        v@.subrange(0, k as int),
                    )[j]);
                }
            }
        }
        k = k + 1;
    }
    assert(v@.subrange(0, v@.len() as int) =~= v@);
    r
}

impl Clone for Container {
    fn clone(&self) -> (r: Container)
        ensures
            r@ == self@,
    {
        let id = match &self.id {
            Some(s) => Some(s.clone()),
            None => None,
        };
        let env = match &self.env {
            Some(v) => Some(copy_texts(v)),
            None => None,
        };
        let cmd = match &self.cmd {
            Some(v) => Some(copy_texts(v)),
            None => None,
        };
        let binds = match &self.binds {
            Some(v) => Some(copy_texts(v)),
            None => None,
        };
        Container { id, image: self.image.clone(), env, cmd, binds }
    }
}

impl Container {
    /// A run of `image`, not yet created.
    pub fn new(image: String) -> (r: Container)
        ensures
            r@ == fresh_run(image@),
    {
        Container { id: None, image, env: None, cmd: None, binds: None }
    }

    /// Sets the run's environment.
    pub fn env(&mut self, env: Vec<String>)
        ensures
            final(self)@ == (ContainerView { env: Some(crate::protocol::texts(env@)), ..old(self)@ }),
    {
        self.env = Some(env);
    }

    /// Sets the run's command arguments.
    pub fn cmd(&mut self, cmd: Vec<String>)
        ensures
            final(self)@ == (ContainerView { cmd: Some(crate::protocol::texts(cmd@)), ..old(self)@ }),
    {
        self.cmd = Some(cmd);
    }

    /// Sets the run's bind mounts, each `host:container`.
    pub fn binds(&mut self, binds: Vec<String>)
        ensures
            final(self)@ == (ContainerView { binds: Some(crate::protocol::texts(binds@)), ..old(self)@ }),
    {
        self.binds = Some(binds);
    }

    /// The runtime's identifier, once the run has been created.
    pub fn id(&self) -> (r: Option<&String>)
        ensures
            r matches Some(s) ==> self@.id == Some(s@),
            r is None <==> self@.id is None,
    {
        match &self.id {
            Some(s) => Some(s),
            None => None,
        }
    }

    /// Records the identifier that the runtime gave the created run.
    pub fn set_id(&mut self, id: String)
        ensures
            final(self)@ == (ContainerView { id: Some(id@), ..old(self)@ }),
    {
        self.id = Some(id);
    }

    /// Forgets the identifier, once the run has been removed.
    pub fn take_id(&mut self) -> (r: Option<String>)
        ensures
            opt_text(r) == old(self)@.id,
            final(self)@ == (ContainerView { id: None, ..old(self)@ }),
    {
        let r = match &self.id {
            Some(s) => Some(s.clone()),
            None => None,
        };
        self.id = None;
        r
    }

    pub fn image(&self) -> (r: &String)
        ensures
            r@ == self@.image,
    {
        &self.image
    }

    pub fn env_vars(&self) -> (r: Option<&Vec<String>>)
        ensures
            r matches Some(v) ==> self@.env == Some(crate::protocol::texts(v@)),
            r is None <==> self@.env is None,
    {
        match &self.env {
            Some(v) => Some(v),
            None => None,
        }
    }

    pub fn command(&self) -> (r: Option<&Vec<String>>)
        ensures
            r matches Some(v) ==> self@.cmd == Some(crate::protocol::texts(v@)),
            r is None <==> self@.cmd is None,
    {
        match &self.cmd {
            Some(v) => Some(v),
            None => None,
        }
    }

    pub fn bind_mounts(&self) -> (r: Option<&Vec<String>>)
        ensures
            r matches Some(v) ==> self@.binds == Some(crate::protocol::texts(v@)),
            r is None <==> self@.binds is None,
    {
        match &self.binds {
            Some(v) => Some(v),
            None => None,
        }
    }
}

/// What one status report of a run that is being waited on means.
#[derive(Debug, PartialEq, Eq)]
pub enum WaitStep {
    /// The run exited with status zero.
    Exited,
    /// The run exited with a non-zero status, with the runtime's message if
    /// it gave one.
    Failed(Option<String>),
}

/// Reads one status report: status zero is a successful exit, any other
/// status a failure.
pub fn wait_step(status_code: i64, error: Option<String>) -> (r: WaitStep)
    ensures
        status_code == 0 <==> r is Exited,
        status_code != 0 ==> r == WaitStep::Failed(error),
{
    if status_code == 0 {
        WaitStep::Exited
    } else {
        WaitStep::Failed(error)
    }
}

} // verus!
