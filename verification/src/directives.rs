use vstd::prelude::*;

use crate::directive::Directive;
use crate::directive::DirectiveKindView;
use crate::directive::DirectiveView;
use crate::directive::lemma_conflict_symmetric;
use crate::error::Error;
use crate::error::ErrorKind;
use crate::error::ErrorKindView;
use crate::error::ErrorView;
use crate::error::Expected;
use crate::error::result_view;
use crate::parse_stream::ParseStream;
use crate::parse_stream::expected_at;
use crate::token::Ident;
use crate::token::IdentView;
use crate::token::Span;
use crate::token::Token;

verus! {

/// The directives of one field, in the order in which they were written.
#[derive(Debug, PartialEq, Eq)]
pub struct Directives {
    directives: Vec<Directive>,
}

impl View for Directives {
    type V = Seq<DirectiveView>;

    closed spec fn view(&self) -> Seq<DirectiveView> {
        self.directives.deep_view()
    }
}

impl Default for Directives {
    fn default() -> (r: Self)
        ensures
            r@ == Seq::<DirectiveView>::empty(),
    {
        Directives { directives: Vec::new() }
    }
}

/// The place in `set`, from `from` on, of the first directive that is in
/// conflict with one of kind `kind`.
pub open spec fn first_conflict(set: Seq<DirectiveView>, kind: DirectiveKindView, from: int) -> Option<
    int,
>
    decreases set.len() - from,
{
    if !(0 <= from < set.len()) {
        None
    } else if set[from].kind.conflicts_with(kind) {
        Some(from)
    } else {
        first_conflict(set, kind, from + 1)
    }
}

/// The diagnostic for `directive`, which cannot join a set that holds `excluded_by`.
/// It points at `directive`, the later of the two.
pub open spec fn conflict_error(directive: DirectiveView, excluded_by: DirectiveView) -> ErrorView {
    ErrorView {
        span: directive.span,
        kind: ErrorKindView::MutuallyExclusive {
            directive: directive.kind.name(),
            excluded_by: excluded_by.kind.name(),
        },
    }
}

/// Joins the directives of `incoming`, from `pos` on, to `set`, one after the
/// other. The first that is in conflict with a directive already in the set
/// ends the joining: the result is the set as it then stands, and the
/// diagnostic for that directive.
pub open spec fn merged(set: Seq<DirectiveView>, incoming: Seq<DirectiveView>, pos: int) -> (
    Seq<DirectiveView>,
    Option<ErrorView>,
)
    decreases incoming.len() - pos,
{
    if !(0 <= pos < incoming.len()) {
        (set, None)
    } else {
        match first_conflict(set, incoming[pos].kind, 0) {
            Some(i) => (set, Some(conflict_error(incoming[pos], set[i]))),
            None => merged(set.push(incoming[pos]), incoming, pos + 1),
        }
    }
}

/// No two directives of `set` are in conflict.
pub open spec fn consistent(set: Seq<DirectiveView>) -> bool {
    forall|i: int, j: int|
        0 <= i < j < set.len() ==> !(#[trigger] set[i]).kind.conflicts_with((#[trigger] set[j]).kind)
}

/// Reads the directives that stand in `tokens` from `pos` on, `seen` being
/// those read before: none, or directives with a comma between each two, and
/// perhaps one behind the last. The first thing amiss ends the reading.
pub open spec fn directives_from(
    tokens: Seq<Token>,
    pos: int,
    scope: Span,
    default_name: Option<IdentView>,
    seen: Seq<DirectiveView>,
) -> Result<Seq<DirectiveView>, ErrorView>
    decreases tokens.len() - pos,
{
    if !(0 <= pos < tokens.len()) {
        Ok(seen)
    } else {
        match Directive::spec_parse(tokens, pos, scope, default_name) {
            Err(error) => Err(error),
            Ok(directive) => {
                let next = pos + Directive::spec_len(tokens, pos);
                if !(pos < next < tokens.len()) {
                    Ok(seen.push(directive))
                } else if tokens[next].spec_is_punct(',') {
                    directives_from(tokens, next + 1, scope, default_name, seen.push(directive))
                } else {
                    Err(expected_at(tokens, next, scope, Expected::Comma))
                }
            },
        }
    }
}

/// Where `first_conflict` finds nothing, nothing from `from` on is in conflict;
/// where it finds a place, that place holds the first directive in conflict.
pub proof fn lemma_first_conflict(set: Seq<DirectiveView>, kind: DirectiveKindView, from: int)
    requires
        0 <= from,
    ensures
        match first_conflict(set, kind, from) {
            Some(i) => {
                &&& from <= i < set.len()
                &&& set[i].kind.conflicts_with(kind)
                &&& forall|j: int| from <= j < i ==> !(#[trigger] set[j]).kind.conflicts_with(kind)
            },
            None => forall|j: int|
                from <= j < set.len() ==> !(#[trigger] set[j]).kind.conflicts_with(kind),
        },
    decreases set.len() - from,
{
    if from < set.len() && !set[from].kind.conflicts_with(kind) {
        lemma_first_conflict(set, kind, from + 1);
    }
}

/// In a set free of conflicts, no directive is in conflict with any other,
/// whichever of the two came first.
pub proof fn lemma_consistent_pairwise(set: Seq<DirectiveView>, i: int, j: int)
    requires
        consistent(set),
        0 <= i < set.len(),
        0 <= j < set.len(),
        i != j,
    ensures
        !set[i].kind.conflicts_with(set[j].kind),
{
    if j < i {
        lemma_conflict_symmetric(set[j].kind, set[i].kind);
    }
}

/// Joining keeps a set free of conflicts, whether all of `incoming` joins it or not.
pub proof fn lemma_merged_consistent(
    set: Seq<DirectiveView>,
    incoming: Seq<DirectiveView>,
    pos: int,
)
    requires
        consistent(set),
    ensures
        consistent(merged(set, incoming, pos).0),
    decreases incoming.len() - pos,
{
    if 0 <= pos < incoming.len() {
        if first_conflict(set, incoming[pos].kind, 0) is None {
            lemma_first_conflict(set, incoming[pos].kind, 0);
            let next = set.push(incoming[pos]);
            assert forall|i: int, j: int| 0 <= i < j < next.len() implies !(#[trigger] next[i]).kind.conflicts_with(
                (#[trigger] next[j]).kind,
            ) by {
                if j < set.len() {
                    assert(next[i] == set[i] && next[j] == set[j]);
                } else {
                    assert(next[i] == set[i] && next[j] == incoming[pos]);
                }
            }
            lemma_merged_consistent(next, incoming, pos + 1);
        }
    }
}

/// Of two directives in conflict that are joined to an empty set one after
/// the other, the second is the one refused, and the diagnostic points at it.
pub proof fn lemma_merged_reports_later(first: DirectiveView, second: DirectiveView)
    requires
        first.kind.conflicts_with(second.kind),
    ensures
        merged(Seq::empty(), seq![first, second], 0) == (
            seq![first],
            Some(conflict_error(second, first)),
        ),
        conflict_error(second, first).span == second.span,
{
    let incoming = seq![first, second];
    let empty = Seq::<DirectiveView>::empty();
    assert(first_conflict(empty, first.kind, 0) is None);
    let one = empty.push(first);
    assert(one =~= seq![first]);
    assert(first_conflict(one, second.kind, 0) == Some(0int));
    assert(merged(one, incoming, 1) == (one, Some(conflict_error(second, first)))) by {
        assert(incoming[1] == second);
    }
    assert(merged(empty, incoming, 0) == merged(one, incoming, 1)) by {
        assert(incoming[0] == first);
    }
}

/// Joining only ever adds at the end: the set before is the start of the set after.
pub proof fn lemma_merged_extends(set: Seq<DirectiveView>, incoming: Seq<DirectiveView>, pos: int)
    ensures
        set.len() <= merged(set, incoming, pos).0.len(),
        merged(set, incoming, pos).0.take(set.len() as int) == set,
    decreases incoming.len() - pos,
{
    if 0 <= pos < incoming.len() && first_conflict(set, incoming[pos].kind, 0) is None {
        let next = set.push(incoming[pos]);
        lemma_merged_extends(next, incoming, pos + 1);
        assert(merged(set, incoming, pos).0.take(set.len() as int) == merged(
            next,
            incoming,
            pos + 1,
        ).0.take(next.len() as int).take(set.len() as int));
    } else {
        assert(set.take(set.len() as int) == set);
    }
}

impl Directives {
    /// The directives, in order.
    pub fn iter(&self) -> (r: &Vec<Directive>)
        ensures
            r.deep_view() == self@,
    {
        &self.directives
    }

    /// What a directive list comes to: see [`directives_from`].
    pub open spec fn spec_parse(
        tokens: Seq<Token>,
        pos: int,
        scope: Span,
        default_name: Option<IdentView>,
    ) -> Result<Seq<DirectiveView>, ErrorView> {
        directives_from(tokens, pos, scope, default_name, Seq::empty())
    }

    /// Joins the directives of `other` to `self`, one after the other, as
    /// far as none is in conflict with a directive already there. The first
    /// that is ends the joining and is reported, at its own place.
    pub fn extend_from(&mut self, other: Self) -> (r: Result<(), Error>)
        ensures
            final(self)@ == merged(old(self)@, other@, 0).0,
            match r {
                Ok(_) => merged(old(self)@, other@, 0).1 is None,
                Err(error) => merged(old(self)@, other@, 0).1 == Some(error@),
            },
            consistent(old(self)@) ==> consistent(final(self)@),
    {
        proof {
            if consistent(self@) {
                lemma_merged_consistent(self@, other@, 0);
            }
        }
        let ghost incoming = other@;
        let ghost start = self@;
        let mut rest = other.directives;
        let ghost mut pos: int = 0;
        proof {
            assert(rest.deep_view() =~= incoming.skip(0));
        }
        while rest.len() > 0
            invariant
                start == old(self)@,
                incoming == other@,
                0 <= pos <= incoming.len(),
                rest.deep_view() == incoming.skip(pos),
                merged(start, incoming, 0) == merged(self@, incoming, pos),
                consistent(start) ==> consistent(merged(start, incoming, 0).0),
            decreases rest.len(),
        {
            let ghost rest_before = rest.deep_view();
            assert(rest_before.len() == rest@.len());
            assert(rest_before[0] == rest@[0]@);
            let directive = rest.remove(0);
            assert(directive@ == incoming[pos]) by {
                assert(incoming.skip(pos)[0] == incoming[pos]);
            }
            assert(rest.deep_view() =~= rest_before.skip(1)) by {
                assert forall|k: int| 0 <= k < rest@.len() implies rest.deep_view()[k]
                    == rest_before[k + 1] by {
                    assert(rest.deep_view()[k] == rest@[k]@);
                }
            }
            match excluded_by(&self.directives, &directive) {
                Some(found) => {
                    return Err(
                        Error::new(
                            directive.span(),
                            ErrorKind::MutuallyExclusive {
                                directive: String::from_str(directive.kind.name()),
                                excluded_by: String::from_str(found.kind.name()),
                            },
                        ),
                    );
                },
                None => {},
            }
            let ghost before = self@;
            self.directives.push(directive);
            proof {
                assert(self@ =~= before.push(incoming[pos]));
                assert(rest.deep_view() =~= incoming.skip(pos + 1));
                pos = pos + 1;
            }
        }
        Ok(())
    }

    /// Reads a directive list to its end: directives with a comma between
    /// each two, and perhaps one behind the last. Conflicts are not looked
    /// for here, but when the list joins a field's directives.
    pub fn parse(input: ParseStream, default_name: Option<Ident>) -> (r: Result<Self, Error>)
        ensures
            result_view(r) == Self::spec_parse(
                input.tokens(),
                input.pos(),
                input.scope(),
                default_name.deep_view(),
            ),
    {
        let mut stream = input;
        let mut directives: Vec<Directive> = Vec::new();
        let ghost tokens = input.tokens();
        let ghost scope = input.scope();
        let ghost start = input.pos();
        proof {
            input.lemma_pos_in_range();
            assert(directives.deep_view() =~= Seq::<DirectiveView>::empty());
        }
        loop
            invariant
                tokens == input.tokens(),
                scope == input.scope(),
                start == input.pos(),
                stream.tokens() == tokens,
                stream.scope() == scope,
                0 <= stream.pos() <= tokens.len(),
                directives_from(tokens, start, scope, default_name.deep_view(), Seq::empty())
                    == directives_from(
                    tokens,
                    stream.pos(),
                    scope,
                    default_name.deep_view(),
                    directives.deep_view(),
                ),
            ensures
                directives_from(tokens, start, scope, default_name.deep_view(), Seq::empty()) == Ok::<
                    Seq<DirectiveView>,
                    ErrorView,
                >(directives.deep_view()),
            decreases tokens.len() - stream.pos(),
        {
            if stream.is_empty() {
                break ;
            }
            let ghost seen = directives.deep_view();
            let value = Directive::parse(&mut stream, default_name.clone())?;
            directives.push(value);
            proof {
                stream.lemma_pos_in_range();
                assert(directives.deep_view() =~= seen.push(value@));
            }
            if stream.is_empty() {
                break ;
            }
            stream.parse_comma()?;
        }
        Ok(Directives { directives })
    }
}

/// The first of `directives`, in order, that `directive` is in conflict with.
fn excluded_by<'a>(directives: &'a Vec<Directive>, directive: &Directive) -> (r: Option<
    &'a Directive,
>)
    ensures
        match r {
            Some(found) => {
                &&& first_conflict(directives.deep_view(), directive@.kind, 0) matches Some(i)
                &&& found@ == directives.deep_view()[i]
            },
            None => first_conflict(directives.deep_view(), directive@.kind, 0) is None,
        },
{
    let mut i: usize = 0;
    while i < directives.len()
        invariant
            0 <= i <= directives@.len(),
            first_conflict(directives.deep_view(), directive@.kind, 0) == first_conflict(
                directives.deep_view(),
                directive@.kind,
                i as int,
            ),
        decreases directives@.len() - i,
    {
        if directives[i].kind.is_conflicted_with(&directive.kind) {
            return Some(&directives[i]);
        }
        i = i + 1;
    }
    None
}

} // verus!
