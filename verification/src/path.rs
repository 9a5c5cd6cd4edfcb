//! The path data model: components, paths, and their mathematical values.

use vstd::prelude::*;

verus! {

/// One atomic unit of a path's structure: a root marker, a
/// current-directory marker, a parent-directory marker, or a normal
/// name segment.
///
/// Two components are equal exactly when their kinds match and, for
/// name segments, their text matches character for character: no
/// normalization and no case folding.
#[derive(Debug)]
pub enum Component {
    RootDir,
    CurDir,
    ParentDir,
    Normal(String),
}

/// The mathematical value of a `Component`: the same four kinds, with
/// a name segment abstracted to its character sequence.
pub ghost enum ComponentModel {
    RootDir,
    CurDir,
    ParentDir,
    Normal(Seq<char>),
}

impl View for Component {
    type V = ComponentModel;

    open spec fn view(&self) -> ComponentModel {
        match self {
            Component::RootDir => ComponentModel::RootDir,
            Component::CurDir => ComponentModel::CurDir,
            Component::ParentDir => ComponentModel::ParentDir,
            Component::Normal(name) => ComponentModel::Normal(name@),
        }
    }
}

impl DeepView for Component {
    type V = ComponentModel;

    open spec fn deep_view(&self) -> ComponentModel {
        self.view()
    }
}

impl Clone for Component {
    /// Cloning preserves the component's value.
    fn clone(&self) -> (res: Self)
        ensures
            res == *self,
    {
        match self {
            Component::RootDir => Component::RootDir,
            Component::CurDir => Component::CurDir,
            Component::ParentDir => Component::ParentDir,
            Component::Normal(name) => Component::Normal(name.clone()),
        }
    }
}

impl PartialEq for Component {
    fn eq(&self, other: &Component) -> (r: bool) {
        match (self, other) {
            (Component::RootDir, Component::RootDir) => true,
            (Component::CurDir, Component::CurDir) => true,
            (Component::ParentDir, Component::ParentDir) => true,
            (Component::Normal(name), Component::Normal(other_name)) => *name == *other_name,
            _ => false,
        }
    }
}

impl vstd::std_specs::cmp::PartialEqSpecImpl for Component {
    open spec fn obeys_eq_spec() -> bool {
        true
    }

    open spec fn eq_spec(&self, other: &Component) -> bool {
        self@ == other@
    }
}

/// A path value: an ordered sequence of components together with a
/// single "is absolute" attribute. A path is only read and decomposed;
/// it is never mutated.
#[derive(Debug)]
pub struct Path {
    pub absolute: bool,
    pub components: Vec<Component>,
}

/// The mathematical value of a `Path`: the absoluteness flag and the
/// sequence of component values.
pub ghost struct PathModel {
    pub absolute: bool,
    pub components: Seq<ComponentModel>,
}

impl View for Path {
    type V = PathModel;

    open spec fn view(&self) -> PathModel {
        PathModel { absolute: self.absolute, components: self.components.deep_view() }
    }
}

} // verus!
