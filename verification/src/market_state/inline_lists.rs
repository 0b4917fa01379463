//! Short lists kept inline by `smallvec::SmallVec`: the roles, contributors
//! and families of a structural node, and the node identities of a merge or
//! split. Each list type holds one `SmallVec` with the inline capacity that
//! the node model uses; its contents are named by a spec function and read
//! back as a slice.
//!
//! The names below are not generic, so each list type has its own pair of
//! calls into `SmallVec::from_vec` and `SmallVec::as_slice`.

use crate::market_state::contracts::{LevelFamily, LevelId, LevelRole, StructuralNodeId};
use smallvec::SmallVec;
use vstd::prelude::*;
use vstd::slice::slice_to_vec;

verus! {

/// The roles of a node: a `SmallVec<[LevelRole; 4]>`.
#[verifier::external_body]
#[derive(Debug, PartialEq, Eq)]
pub struct RoleList {
    items: SmallVec<[LevelRole; 4]>,
}

/// What a role list holds, in order.
pub uninterp spec fn role_list_items(list: RoleList) -> Seq<LevelRole>;

impl View for RoleList {
    type V = Seq<LevelRole>;

    open spec fn view(&self) -> Seq<LevelRole> {
        role_list_items(*self)
    }
}

/// `SmallVec::from_vec`: the list holds the vector's items in order.
#[verifier::external_body]
fn role_list_from_vec(items: Vec<LevelRole>) -> (list: RoleList)
    ensures
        role_list_items(list) == items@,
{
    RoleList { items: SmallVec::from_vec(items) }
}

/// `SmallVec::as_slice`: the items in order.
#[verifier::external_body]
fn role_list_as_slice(list: &RoleList) -> (items: &[LevelRole])
    ensures
        items@ == role_list_items(*list),
{
    list.items.as_slice()
}

impl RoleList {
    /// A list of `items`, in order.
    pub fn from_vec(items: Vec<LevelRole>) -> (list: RoleList)
        ensures
            list@ == items@,
    {
        role_list_from_vec(items)
    }

    /// The items in order.
    pub fn as_slice(&self) -> (items: &[LevelRole])
        ensures
            items@ == self@,
    {
        role_list_as_slice(self)
    }

    /// A copy of the items.
    pub fn to_vec(&self) -> (items: Vec<LevelRole>)
        ensures
            items@ == self@,
    {
        slice_to_vec(self.as_slice())
    }

    /// The number of items.
    pub fn len(&self) -> (n: usize)
        ensures
            n == self@.len(),
    {
        self.as_slice().len()
    }
}

impl Clone for RoleList {
    /// An equal list, built from a copy of the items.
    fn clone(&self) -> (copy: RoleList)
        ensures
            copy@ == self@,
    {
        RoleList::from_vec(self.to_vec())
    }
}

/// The contributors of a node: a `SmallVec<[LevelId; 8]>`.
#[verifier::external_body]
#[derive(Debug, PartialEq, Eq)]
pub struct IdList {
    items: SmallVec<[LevelId; 8]>,
}

/// What an contributor list holds, in order.
pub uninterp spec fn id_list_items(list: IdList) -> Seq<LevelId>;

impl View for IdList {
    type V = Seq<LevelId>;

    open spec fn view(&self) -> Seq<LevelId> {
        id_list_items(*self)
    }
}

/// `SmallVec::from_vec`: the list holds the vector's items in order.
#[verifier::external_body]
fn id_list_from_vec(items: Vec<LevelId>) -> (list: IdList)
    ensures
        id_list_items(list) == items@,
{
    IdList { items: SmallVec::from_vec(items) }
}

/// `SmallVec::as_slice`: the items in order.
#[verifier::external_body]
fn id_list_as_slice(list: &IdList) -> (items: &[LevelId])
    ensures
        items@ == id_list_items(*list),
{
    list.items.as_slice()
}

impl IdList {
    /// A list of `items`, in order.
    pub fn from_vec(items: Vec<LevelId>) -> (list: IdList)
        ensures
            list@ == items@,
    {
        id_list_from_vec(items)
    }

    /// The items in order.
    pub fn as_slice(&self) -> (items: &[LevelId])
        ensures
            items@ == self@,
    {
        id_list_as_slice(self)
    }

    /// A copy of the items.
    pub fn to_vec(&self) -> (items: Vec<LevelId>)
        ensures
            items@ == self@,
    {
        slice_to_vec(self.as_slice())
    }

    /// The number of items.
    pub fn len(&self) -> (n: usize)
        ensures
            n == self@.len(),
    {
        self.as_slice().len()
    }
}

impl Clone for IdList {
    /// An equal list, built from a copy of the items.
    fn clone(&self) -> (copy: IdList)
        ensures
            copy@ == self@,
    {
        IdList::from_vec(self.to_vec())
    }
}

/// The families of a node: a `SmallVec<[LevelFamily; 4]>`.
#[verifier::external_body]
#[derive(Debug, PartialEq, Eq)]
pub struct FamilyList {
    items: SmallVec<[LevelFamily; 4]>,
}

/// What a family list holds, in order.
pub uninterp spec fn family_list_items(list: FamilyList) -> Seq<LevelFamily>;

impl View for FamilyList {
    type V = Seq<LevelFamily>;

    open spec fn view(&self) -> Seq<LevelFamily> {
        family_list_items(*self)
    }
}

/// `SmallVec::from_vec`: the list holds the vector's items in order.
#[verifier::external_body]
fn family_list_from_vec(items: Vec<LevelFamily>) -> (list: FamilyList)
    ensures
        family_list_items(list) == items@,
{
    FamilyList { items: SmallVec::from_vec(items) }
}

/// `SmallVec::as_slice`: the items in order.
#[verifier::external_body]
fn family_list_as_slice(list: &FamilyList) -> (items: &[LevelFamily])
    ensures
        items@ == family_list_items(*list),
{
    list.items.as_slice()
}

impl FamilyList {
    /// A list of `items`, in order.
    pub fn from_vec(items: Vec<LevelFamily>) -> (list: FamilyList)
        ensures
            list@ == items@,
    {
        family_list_from_vec(items)
    }

    /// The items in order.
    pub fn as_slice(&self) -> (items: &[LevelFamily])
        ensures
            items@ == self@,
    {
        family_list_as_slice(self)
    }

    /// A copy of the items.
    pub fn to_vec(&self) -> (items: Vec<LevelFamily>)
        ensures
            items@ == self@,
    {
        slice_to_vec(self.as_slice())
    }

    /// The number of items.
    pub fn len(&self) -> (n: usize)
        ensures
            n == self@.len(),
    {
        self.as_slice().len()
    }
}

impl Clone for FamilyList {
    /// An equal list, built from a copy of the items.
    fn clone(&self) -> (copy: FamilyList)
        ensures
            copy@ == self@,
    {
        FamilyList::from_vec(self.to_vec())
    }
}

/// The node identities of a merge or split: a `SmallVec<[StructuralNodeId; 4]>`.
#[verifier::external_body]
#[derive(Debug, PartialEq, Eq)]
pub struct NodeIdList {
    items: SmallVec<[StructuralNodeId; 4]>,
}

/// What a node identity list holds, in order.
pub uninterp spec fn node_id_list_items(list: NodeIdList) -> Seq<StructuralNodeId>;

impl View for NodeIdList {
    type V = Seq<StructuralNodeId>;

    open spec fn view(&self) -> Seq<StructuralNodeId> {
        node_id_list_items(*self)
    }
}

/// `SmallVec::from_vec`: the list holds the vector's items in order.
#[verifier::external_body]
fn node_id_list_from_vec(items: Vec<StructuralNodeId>) -> (list: NodeIdList)
    ensures
        node_id_list_items(list) == items@,
{
    NodeIdList { items: SmallVec::from_vec(items) }
}

/// `SmallVec::as_slice`: the items in order.
#[verifier::external_body]
fn node_id_list_as_slice(list: &NodeIdList) -> (items: &[StructuralNodeId])
    ensures
        items@ == node_id_list_items(*list),
{
    list.items.as_slice()
}

impl NodeIdList {
    /// A list of `items`, in order.
    pub fn from_vec(items: Vec<StructuralNodeId>) -> (list: NodeIdList)
        ensures
            list@ == items@,
    {
        node_id_list_from_vec(items)
    }

    /// The items in order.
    pub fn as_slice(&self) -> (items: &[StructuralNodeId])
        ensures
            items@ == self@,
    {
        node_id_list_as_slice(self)
    }

    /// A copy of the items.
    pub fn to_vec(&self) -> (items: Vec<StructuralNodeId>)
        ensures
            items@ == self@,
    {
        slice_to_vec(self.as_slice())
    }

    /// The number of items.
    pub fn len(&self) -> (n: usize)
        ensures
            n == self@.len(),
    {
        self.as_slice().len()
    }
}

impl Clone for NodeIdList {
    /// An equal list, built from a copy of the items.
    fn clone(&self) -> (copy: NodeIdList)
        ensures
            copy@ == self@,
    {
        NodeIdList::from_vec(self.to_vec())
    }
}

} // verus!
