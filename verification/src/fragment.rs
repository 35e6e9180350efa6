use vstd::prelude::*;

use crate::token::Ident;
use crate::token::IdentView;

verus! {

/// How generated code addresses a field: by its name, or by its position.
#[derive(Debug, PartialEq, Eq)]
pub enum Member {
    Named(Ident),
    Unnamed(usize),
}

/// The mathematical model of a [`Member`].
pub enum MemberView {
    Named(IdentView),
    Unnamed(usize),
}

impl View for Member {
    type V = MemberView;

    open spec fn view(&self) -> MemberView {
        match *self {
            Member::Named(ident) => MemberView::Named(ident@),
            Member::Unnamed(index) => MemberView::Unnamed(index),
        }
    }
}

/// One piece of the engine's output.
///
/// Each piece but [`Fragment::Item`] is one impl block on the annotated type.
/// `member` says which field it is about, and `variant`, for a tagged union,
/// which case that field belongs to.
#[derive(Debug, PartialEq, Eq)]
pub enum Fragment {
    /// The declaration itself, without the annotations that the engine took.
    Item,
    /// `From<F>` for the type, `F` being the field's type: builds the type
    /// (or the case `variant` of it) from the field's value.
    From { variant: Option<Ident>, member: Member },
    /// `From<F>` for the type in a `Box`: boxes what [`Fragment::From`] builds.
    BoxedFrom { variant: Option<Ident>, member: Member },
    /// `Into<F>` for the type: gives the field's value up.
    Into { member: Member },
    /// `Deref` with the field's type as target.
    Deref { member: Member },
    /// `DerefMut` to the field.
    DerefMut { member: Member },
    /// `AsRef<F>` for the type.
    AsRef { member: Member },
    /// `AsMut<F>` for the type.
    AsMut { member: Member },
    /// A method `name(&self) -> &F`.
    GetRef { name: Ident, member: Member },
    /// A method `name(&self) -> F` that clones the field.
    GetClone { name: Ident, member: Member },
    /// A method `name(&self) -> F` that copies the field.
    GetCopy { name: Ident, member: Member },
    /// A method `name(&mut self) -> &mut F`.
    GetMut { name: Ident, member: Member },
}

/// The mathematical model of a [`Fragment`].
pub enum FragmentView {
    Item,
    From { variant: Option<IdentView>, member: MemberView },
    BoxedFrom { variant: Option<IdentView>, member: MemberView },
    Into { member: MemberView },
    Deref { member: MemberView },
    DerefMut { member: MemberView },
    AsRef { member: MemberView },
    AsMut { member: MemberView },
    GetRef { name: IdentView, member: MemberView },
    GetClone { name: IdentView, member: MemberView },
    GetCopy { name: IdentView, member: MemberView },
    GetMut { name: IdentView, member: MemberView },
}

impl View for Fragment {
    type V = FragmentView;

    open spec fn view(&self) -> FragmentView {
        match *self {
            Fragment::Item => FragmentView::Item,
            Fragment::From { variant, member } => FragmentView::From {
                variant: variant.deep_view(),
                member: member@,
            },
            Fragment::BoxedFrom { variant, member } => FragmentView::BoxedFrom {
                variant: variant.deep_view(),
                member: member@,
            },
            Fragment::Into { member } => FragmentView::Into { member: member@ },
            Fragment::Deref { member } => FragmentView::Deref { member: member@ },
            Fragment::DerefMut { member } => FragmentView::DerefMut { member: member@ },
            Fragment::AsRef { member } => FragmentView::AsRef { member: member@ },
            Fragment::AsMut { member } => FragmentView::AsMut { member: member@ },
            Fragment::GetRef { name, member } => FragmentView::GetRef { name: name@, member: member@ },
            Fragment::GetClone { name, member } => FragmentView::GetClone {
                name: name@,
                member: member@,
            },
            Fragment::GetCopy { name, member } => FragmentView::GetCopy {
                name: name@,
                member: member@,
            },
            Fragment::GetMut { name, member } => FragmentView::GetMut { name: name@, member: member@ },
        }
    }
}

impl DeepView for Fragment {
    type V = FragmentView;

    open spec fn deep_view(&self) -> FragmentView {
        self@
    }
}

} // verus!
