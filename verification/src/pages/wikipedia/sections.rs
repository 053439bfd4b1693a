//! The sections of a page, built from the elements of its body.
//!
//! The body of a page is a flat run of elements: headings, and between them
//! paragraphs, lists, notes, figures and tables. A heading opens a section
//! that lasts until the next heading of the same or a higher rank, so that
//! the sections form a tree. Reading the body yields one [`Piece`] for each
//! element, and [`build_sections`] makes the tree of them.

use vstd::prelude::*;
use crate::pages::wikipedia::{
    section_views, ContentValue, SectionContent, SectionView, ValueView,
};

verus! {

/// What one element of the body contributes.
#[derive(Debug, PartialEq, Eq)]
pub enum Piece {
    /// A heading of the rank `level`, with the empty section that it opens,
    /// or with `None` where the heading has no readable text.
    Heading { level: u32, section: Option<SectionContent> },
    /// What the element adds to the section it stands in.
    Values(Vec<ContentValue>),
}

/// What a piece holds.
pub enum PieceView {
    Heading { level: u32, section: Option<SectionView> },
    Values(Seq<ValueView>),
}

impl View for Piece {
    type V = PieceView;

    open spec fn view(&self) -> PieceView {
        match self {
            Piece::Heading { level, section } => PieceView::Heading {
                level: *level,
                section: match section {
                    Some(s) => Some(s@),
                    None => None,
                },
            },
            Piece::Values(values) => PieceView::Values(
                Seq::new(values.len() as nat, |i: int| values[i]@),
            ),
        }
    }
}

/// The views of a sequence of pieces.
pub open spec fn piece_views(pieces: Seq<Piece>) -> Seq<PieceView> {
    Seq::new(pieces.len(), |i: int| pieces[i]@)
}

/// The sections of a page while they are built: those that are finished,
/// and the open ones, each the parent of the next, the innermost last.
pub struct Outline {
    pub done: Seq<SectionView>,
    pub open: Seq<SectionView>,
}

/// `section` with `values` appended.
pub open spec fn with_values(section: SectionView, values: Seq<ValueView>) -> SectionView {
    SectionView { heading: section.heading, level: section.level, content: section.content + values }
}

/// `outline` with its innermost open section closed. An empty section is
/// dropped. Another is appended to its parent, or to the finished sections
/// where it has no parent.
pub open spec fn attached(outline: Outline) -> Outline {
    let section = outline.open.last();
    let parents = outline.open.drop_last();
    if section.content.len() == 0 {
        Outline { done: outline.done, open: parents }
    } else if parents.len() > 0 {
        Outline {
            done: outline.done,
            open: parents.drop_last().push(
                with_values(parents.last(), seq![ValueView::Nested(Box::new(section))]),
            ),
        }
    } else {
        Outline { done: outline.done.push(section), open: parents }
    }
}

/// `outline` with every open section of the rank `level` or a lower rank
/// closed, from the innermost outwards, up to the first of a higher rank.
pub open spec fn closed_to(outline: Outline, level: u32) -> Outline
    decreases outline.open.len(),
{
    if outline.open.len() > 0 && outline.open.last().level >= level {
        closed_to(attached(outline), level)
    } else {
        outline
    }
}

/// `outline` with every open section closed.
pub open spec fn closed(outline: Outline) -> Outline
    decreases outline.open.len(),
{
    if outline.open.len() > 0 {
        closed(attached(outline))
    } else {
        outline
    }
}

/// `outline` after `piece`. A heading closes the open sections up to its
/// rank and opens its own, if it has one. Values go to the innermost open
/// section, and nowhere if none is open.
pub open spec fn after(outline: Outline, piece: PieceView) -> Outline {
    match piece {
        PieceView::Heading { level, section } => {
            let closed = closed_to(outline, level);
            match section {
                Some(opened) => Outline { done: closed.done, open: closed.open.push(opened) },
                None => closed,
            }
        },
        PieceView::Values(values) => {
            if outline.open.len() > 0 {
                Outline {
                    done: outline.done,
                    open: outline.open.drop_last().push(with_values(outline.open.last(), values)),
                }
            } else {
                outline
            }
        },
    }
}

/// The outline after all of `pieces`, in order.
pub open spec fn outlined(pieces: Seq<PieceView>) -> Outline
    decreases pieces.len(),
{
    if pieces.len() == 0 {
        Outline { done: Seq::empty(), open: Seq::empty() }
    } else {
        after(outlined(pieces.drop_last()), pieces.last())
    }
}

/// The sections of the highest rank that `pieces` make, each with its
/// sections of lower rank inside it.
pub open spec fn built(pieces: Seq<PieceView>) -> Seq<SectionView> {
    closed(outlined(pieces)).done
}

/// Closes the innermost open section.
fn attach(done: &mut Vec<SectionContent>, open: &mut Vec<SectionContent>)
    requires
        old(open).len() > 0,
    ensures
        (Outline { done: section_views(final(done)@), open: section_views(final(open)@) })
            == attached(Outline { done: section_views(old(done)@), open: section_views(old(open)@) }),
        final(open).len() == old(open).len() - 1,
{
    let ghost before = Outline { done: section_views(done@), open: section_views(open@) };
    let section = match open.pop() {
        Some(section) => section,
        None => {
            return ;
        },
    };
    proof {
        section.lemma_view();
        assert(section_views(open@) =~= before.open.drop_last());
        assert(before.open.last() == section@);
    }
    if section.is_empty_content() {
        return ;
    }
    match open.pop() {
        Some(parent) => {
            let ghost grandparents = section_views(open@);
            let mut parent = parent;
            let ghost parent_before = parent;
            parent.add_nested(section);
            proof {
                parent.lemma_view();
                parent_before.lemma_view();
                assert(parent@.content =~= parent_before@.content + seq![
                    ValueView::Nested(Box::new(section@)),
                ]);
                assert(grandparents =~= before.open.drop_last().drop_last());
                assert(before.open.drop_last().last() == parent_before@);
            }
            open.push(parent);
            assert(section_views(open@) =~= grandparents.push(parent@));
        },
        None => {
            done.push(section);
            assert(section_views(done@) =~= before.done.push(section@));
        },
    }
}

/// Closes every open section of the rank `level` or a lower rank, from the
/// innermost outwards, up to the first of a higher rank.
fn close_to(done: &mut Vec<SectionContent>, open: &mut Vec<SectionContent>, level: u32)
    ensures
        (Outline { done: section_views(final(done)@), open: section_views(final(open)@) })
            == closed_to(
            Outline { done: section_views(old(done)@), open: section_views(old(open)@) },
            level,
        ),
    decreases old(open).len(),
{
    if open.len() > 0 {
        proof {
            open[open.len() - 1].lemma_view();
        }
        if open[open.len() - 1].level() >= level {
            attach(done, open);
            close_to(done, open, level);
        }
    }
}

/// Closes every open section.
fn close(done: &mut Vec<SectionContent>, open: &mut Vec<SectionContent>)
    ensures
        (Outline { done: section_views(final(done)@), open: section_views(final(open)@) })
            == closed(Outline { done: section_views(old(done)@), open: section_views(old(open)@) }),
    decreases old(open).len(),
{
    if open.len() > 0 {
        attach(done, open);
        close(done, open);
    }
}

/// Takes in one piece.
fn take_in(done: &mut Vec<SectionContent>, open: &mut Vec<SectionContent>, piece: Piece)
    ensures
        (Outline { done: section_views(final(done)@), open: section_views(final(open)@) })
            == after(
            Outline { done: section_views(old(done)@), open: section_views(old(open)@) },
            piece@,
        ),
{
    match piece {
        Piece::Heading { level, section } => {
            close_to(done, open, level);
            match section {
                Some(opened) => {
                    let ghost parents = section_views(open@);
                    open.push(opened);
                    assert(section_views(open@) =~= parents.push(opened@));
                },
                None => {},
            }
        },
        Piece::Values(values) => {
            let ghost before = section_views(open@);
            match open.pop() {
                Some(section) => {
                    let ghost parents = section_views(open@);
                    let mut section = section;
                    let ghost section_before = section;
                    section.add_values(values);
                    proof {
                        section.lemma_view();
                        section_before.lemma_view();
                        assert(section@.content =~= section_before@.content + Seq::new(
                            values.len() as nat,
                            |i: int| values[i]@,
                        ));
                        assert(parents =~= before.drop_last());
                        assert(before.last() == section_before@);
                    }
                    open.push(section);
                    assert(section_views(open@) =~= parents.push(section@));
                },
                None => {
                    assert(section_views(open@) =~= before);
                },
            }
        },
    }
}

/// `pieces` in the opposite order.
fn back_to_front(pieces: Vec<Piece>) -> (r: Vec<Piece>)
    ensures
        r.len() == pieces.len(),
        forall|k: int| 0 <= k < r.len() ==> r[k] == pieces[pieces.len() - 1 - k],
{
    let mut from = pieces;
    let mut to: Vec<Piece> = Vec::new();
    while from.len() > 0
        invariant
            from.len() + to.len() == pieces.len(),
            from@ == pieces@.take(from.len() as int),
            forall|k: int| 0 <= k < to.len() ==> to[k] == pieces[pieces.len() - 1 - k],
        decreases from.len(),
    {
        match from.pop() {
            Some(piece) => {
                to.push(piece);
            },
            None => {},
        }
    }
    to
}

/// The sections that `pieces` make: those of the highest rank, each with
/// its sections of lower rank inside it, and none that is empty.
pub fn build_sections(pieces: Vec<Piece>) -> (sections: Vec<SectionContent>)
    ensures
        section_views(sections@) == built(piece_views(pieces@)),
{
    let ghost all = piece_views(pieces@);
    let mut done: Vec<SectionContent> = Vec::new();
    let mut open: Vec<SectionContent> = Vec::new();
    let mut rest = back_to_front(pieces);
    let ghost reversed = rest@;
    let n = rest.len();
    let mut i: usize = 0;
    proof {
        assert(all.take(0) =~= Seq::<PieceView>::empty());
        assert(section_views(done@) =~= Seq::<SectionView>::empty());
        assert(section_views(open@) =~= Seq::<SectionView>::empty());
    }
    while i < n
        invariant
            i <= n,
            n == pieces.len(),
            all == piece_views(pieces@),
            reversed.len() == n,
            forall|k: int| 0 <= k < n ==> reversed[k] == pieces[n - 1 - k],
            rest@ == reversed.take(n - i),
            (Outline { done: section_views(done@), open: section_views(open@) }) == outlined(
                all.take(i as int),
            ),
        decreases n - i,
    {
        proof {
            assert(all.take(i + 1).drop_last() =~= all.take(i as int));
            assert(all.take(i + 1).last() == pieces[i as int]@);
            assert(rest@.last() == pieces[i as int]);
        }
        match rest.pop() {
            Some(piece) => {
                take_in(&mut done, &mut open, piece);
                assert(rest@ =~= reversed.take(n - i - 1));
            },
            None => {},
        }
        i += 1;
    }
    assert(all.take(i as int) =~= all);
    close(&mut done, &mut open);
    done
}

} // verus!
