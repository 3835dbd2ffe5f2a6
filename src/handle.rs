use vstd::prelude::*;

verus! {

/// The four kinds of entity a model holds.
#[derive(Debug, Clone, Copy, PartialEq, Eq, Structural)]
pub enum EntityKind {
    Var,
    Constr,
    QConstr,
    Sos,
}

/// Reference to the index cell of one entity. Copies of a proxy refer to the same cell, so
/// two proxies are equal exactly when they refer to the same entity.
#[derive(Debug, Clone, Copy, PartialEq, Eq, Structural)]
pub struct Proxy {
    kind: EntityKind,
    key: usize,
}

impl Proxy {
    pub closed spec fn kind(&self) -> EntityKind {
        self.kind
    }

    /// Key of the entity's cell within its kind.
    pub closed spec fn key(&self) -> usize {
        self.key
    }

    pub(crate) fn new(kind: EntityKind, key: usize) -> (r: Proxy)
        ensures
            r.kind() == kind,
            r.key() == key,
    {
        Proxy { kind, key }
    }

    pub(crate) fn kind_of(&self) -> (r: EntityKind)
        ensures
            r == self.kind(),
    {
        self.kind
    }

    pub(crate) fn key_of(&self) -> (r: usize)
        ensures
            r == self.key(),
    {
        self.key
    }
}

/// A typed handle to an entity.
pub trait Handle {
    spec fn handle(&self) -> Proxy;

    /// The proxy this handle wraps.
    fn proxy(&self) -> (r: Proxy)
        ensures
            r == self.handle(),
    ;
}

impl Handle for Proxy {
    open spec fn handle(&self) -> Proxy {
        *self
    }

    fn proxy(&self) -> (r: Proxy) {
        *self
    }
}

/// Handle to a decision variable.
#[derive(Debug, Clone, Copy, PartialEq, Eq, Structural)]
pub struct Var(Proxy);

/// Handle to a linear constraint.
#[derive(Debug, Clone, Copy, PartialEq, Eq, Structural)]
pub struct Constr(Proxy);

/// Handle to a quadratic constraint.
#[derive(Debug, Clone, Copy, PartialEq, Eq, Structural)]
pub struct QConstr(Proxy);

/// Handle to a special ordered set (SOS) constraint.
#[derive(Debug, Clone, Copy, PartialEq, Eq, Structural)]
pub struct SOS(Proxy);

impl Var {
    pub(crate) fn new(key: usize) -> (r: Var)
        ensures
            r.handle().kind() == EntityKind::Var,
            r.handle().key() == key,
    {
        Var(Proxy::new(EntityKind::Var, key))
    }
}

impl Constr {
    pub(crate) fn new(key: usize) -> (r: Constr)
        ensures
            r.handle().kind() == EntityKind::Constr,
            r.handle().key() == key,
    {
        Constr(Proxy::new(EntityKind::Constr, key))
    }
}

impl QConstr {
    pub(crate) fn new(key: usize) -> (r: QConstr)
        ensures
            r.handle().kind() == EntityKind::QConstr,
            r.handle().key() == key,
    {
        QConstr(Proxy::new(EntityKind::QConstr, key))
    }
}

impl SOS {
    pub(crate) fn new(key: usize) -> (r: SOS)
        ensures
            r.handle().kind() == EntityKind::Sos,
            r.handle().key() == key,
    {
        SOS(Proxy::new(EntityKind::Sos, key))
    }
}

impl Handle for Var {
    closed spec fn handle(&self) -> Proxy {
        self.0
    }

    fn proxy(&self) -> (r: Proxy) {
        self.0
    }
}

impl Handle for Constr {
    closed spec fn handle(&self) -> Proxy {
        self.0
    }

    fn proxy(&self) -> (r: Proxy) {
        self.0
    }
}

impl Handle for QConstr {
    closed spec fn handle(&self) -> Proxy {
        self.0
    }

    fn proxy(&self) -> (r: Proxy) {
        self.0
    }
}

impl Handle for SOS {
    closed spec fn handle(&self) -> Proxy {
        self.0
    }

    fn proxy(&self) -> (r: Proxy) {
        self.0
    }
}

} // verus!
