//! The font families offered for the subtitles.

use vstd::prelude::*;

verus! {

pub open spec fn name_views(names: Seq<Option<String>>) -> Seq<Option<Seq<char>>> {
    names.map_values(
        |n: Option<String>|
            match n {
                Some(name) => Some(name@),
                None => None,
            },
    )
}

/// The names that are there, in order; fonts without a name are left out.
pub open spec fn present_names(names: Seq<Option<Seq<char>>>) -> Seq<Seq<char>>
    decreases names.len(),
{
    if names.len() == 0 {
        Seq::empty()
    } else {
        match names.last() {
            Some(name) => present_names(names.drop_last()).push(name),
            None => present_names(names.drop_last()),
        }
    }
}

/// The names of the fonts that have one, in the order in which the fonts
/// were found.
pub fn named_fonts(names: &Vec<Option<String>>) -> (fonts: Vec<String>)
    ensures
        fonts@.map_values(|name: String| name@) == present_names(name_views(names@)),
{
    let mut fonts: Vec<String> = Vec::new();
    let mut i: usize = 0;
    assert(name_views(names@).take(0) =~= Seq::empty());
    assert(fonts@.map_values(|name: String| name@) =~= Seq::empty());
    while i < names.len()
        invariant
            i <= names.len(),
            fonts@.map_values(|name: String| name@) == present_names(
                name_views(names@).take(i as int),
            ),
        decreases names.len() - i,
    {
        let ghost before = fonts@;
        proof {
            assert(name_views(names@).take(i + 1).drop_last() =~= name_views(names@).take(
                i as int,
            ));
        }
        match &names[i] {
            Some(name) => {
                fonts.push(name.clone());
                assert(fonts@.map_values(|name: String| name@) =~= before.map_values(
                    |name: String| name@,
                ).push(name@));
            },
            None => {},
        }
        i += 1;
    }
    assert(name_views(names@).take(names.len() as int) =~= name_views(names@));
    fonts
}

/// No more names come out than fonts went in.
pub proof fn lemma_present_names_len(names: Seq<Option<Seq<char>>>)
    ensures
        present_names(names).len() <= names.len(),
    decreases names.len(),
{
    if names.len() > 0 {
        lemma_present_names_len(names.drop_last());
    }
}

} // verus!
