//! What the player reports, as plain values: the item now loaded and the
//! events that change the screen.

use vstd::prelude::*;

verus! {

/// What distinguishes the kinds of playable item.
#[allow(inconsistent_fields)]
pub enum UniqueFields {
    /// A music track, with the names of its artists in order.
    Track { artists: Vec<String> },
    /// A podcast episode, with the name of its show.
    Episode { show_name: String },
    /// A local file, with the artist text it carries, if any.
    Local { artists: Option<String> },
}

/// The item that the player has loaded.
pub struct AudioItem {
    pub name: String,
    pub duration_ms: u32,
    pub unique_fields: UniqueFields,
}

/// The player events that the controller reacts to.
pub enum PlayerEvent {
    TrackChanged { audio_item: AudioItem },
    Playing { position_ms: u32 },
    Paused { position_ms: u32 },
    PositionChanged { position_ms: u32 },
    PositionCorrection { position_ms: u32 },
    Seeked { position_ms: u32 },
    Loading,
    Stopped,
    SessionConnected,
    SessionDisconnected,
    /// Any event that leaves the screen as it is.
    Other,
}

/// The texts of `list` joined, with `sep` between each two.
pub open spec fn seq_join(list: Seq<Seq<char>>, sep: Seq<char>) -> Seq<char>
    decreases list.len(),
{
    if list.len() == 0 {
        Seq::empty()
    } else if list.len() == 1 {
        list[0]
    } else {
        seq_join(list.drop_last(), sep) + sep + list.last()
    }
}

/// The views of a list of strings.
pub open spec fn string_views(list: Seq<String>) -> Seq<Seq<char>> {
    list.map_values(|s: String| s@)
}

/// The artist line shown for an item: a track's artists separated by
/// commas, an episode's show, a local file's artist text or, lacking it,
/// "Local audio".
pub open spec fn artist_text(fields: UniqueFields) -> Seq<char> {
    match fields {
        UniqueFields::Track { artists } => seq_join(string_views(artists@), ", "@),
        UniqueFields::Episode { show_name } => show_name@,
        UniqueFields::Local { artists } => match artists {
            Some(a) => a@,
            None => "Local audio"@,
        },
    }
}

/// The texts of `list` joined, with `sep` between each two.
pub fn join_strings(list: &Vec<String>, sep: &str) -> (joined: String)
    ensures
        joined@ == seq_join(string_views(list@), sep@),
{
    let ghost views = string_views(list@);
    let mut joined = String::new();
    let mut i: usize = 0;
    while i < list.len()
        invariant
            i <= list.len(),
            views == string_views(list@),
            views.len() == list@.len(),
            joined@ == seq_join(views.take(i as int), sep@),
        decreases list.len() - i,
    {
        if i != 0 {
            joined.append(sep);
        }
        joined.append(list[i].as_str());
        assert(views.take((i + 1) as int).drop_last() =~= views.take(i as int));
        i = i + 1;
    }
    assert(views.take(list.len() as int) =~= views);
    joined
}

/// The artist line for `audio_item`.
pub fn artist_name(audio_item: &AudioItem) -> (artist: String)
    ensures
        artist@ == artist_text(audio_item.unique_fields),
{
    match &audio_item.unique_fields {
        UniqueFields::Track { artists } => join_strings(artists, ", "),
        UniqueFields::Episode { show_name } => show_name.clone(),
        UniqueFields::Local { artists } => match artists {
            Some(a) => a.clone(),
            None => "Local audio".to_owned(),
        },
    }
}

/// Where the `i`-th text starts in the join of `list` with `sep`: after
/// every earlier text and one separator after each of them.
pub open spec fn join_offset(list: Seq<Seq<char>>, sep: Seq<char>, i: int) -> int
    decreases i,
{
    if i <= 0 {
        0
    } else {
        join_offset(list, sep, i - 1) + list[i - 1].len() + sep.len()
    }
}

proof fn lemma_join_offset_prefix(list: Seq<Seq<char>>, sep: Seq<char>, i: int)
    requires
        0 <= i < list.len(),
    ensures
        join_offset(list, sep, i) == join_offset(list.drop_last(), sep, i),
        join_offset(list, sep, i) >= 0,
        i >= 1 ==> join_offset(list, sep, i) >= sep.len(),
    decreases i,
{
    if i > 0 {
        lemma_join_offset_prefix(list, sep, i - 1);
        assert(list[i - 1] == list.drop_last()[i - 1]);
    }
}

/// The join of a non-empty list is its texts laid end to end, in list
/// order, with exactly one separator between each two and nothing else.
pub proof fn lemma_join_layout(list: Seq<Seq<char>>, sep: Seq<char>)
    requires
        list.len() >= 1,
    ensures
        seq_join(list, sep).len() == join_offset(list, sep, list.len() - 1) + list.last().len(),
        forall|i: int|
            0 <= i < list.len() ==> join_offset(list, sep, i) + list[i].len() <= seq_join(list, sep).len(),
        forall|i: int|
            0 <= i < list.len() ==> #[trigger] seq_join(list, sep).subrange(
                join_offset(list, sep, i),
                join_offset(list, sep, i) + list[i].len(),
            ) == list[i],
        forall|i: int|
            1 <= i < list.len() ==> #[trigger] seq_join(list, sep).subrange(
                join_offset(list, sep, i) - sep.len(),
                join_offset(list, sep, i),
            ) == sep,
    decreases list.len(),
{
    let n = list.len() as int;
    let j = seq_join(list, sep);
    if n == 1 {
        assert(j == list[0]);
        assert(j.subrange(0, list[0].len() as int) =~= list[0]);
    } else {
        let prefix = list.drop_last();
        let x = list.last();
        lemma_join_layout(prefix, sep);
        let p = seq_join(prefix, sep);
        assert(j == p + sep + x);
        assert forall|i: int| 0 <= i < n implies join_offset(list, sep, i) == join_offset(prefix, sep, i)
            || i == n - 1 by {
            if i < n - 1 {
                lemma_join_offset_prefix(list, sep, i);
            }
        }
        lemma_join_offset_prefix(list, sep, n - 2);
        assert(list[n - 2] == prefix[n - 2]);
        assert(join_offset(list, sep, n - 1) == p.len() + sep.len());
        assert forall|i: int| 0 <= i < n implies join_offset(list, sep, i) + list[i].len() <= j.len() by {
            if i < n - 1 {
                lemma_join_offset_prefix(list, sep, i);
                assert(list[i] == prefix[i]);
            }
        }
        assert forall|i: int| 0 <= i < n implies #[trigger] j.subrange(
            join_offset(list, sep, i),
            join_offset(list, sep, i) + list[i].len(),
        ) == list[i] by {
            if i < n - 1 {
                lemma_join_offset_prefix(list, sep, i);
                assert(list[i] == prefix[i]);
                let a = join_offset(prefix, sep, i);
                assert(a + prefix[i].len() <= p.len());
                assert(p.subrange(a, a + prefix[i].len()) == prefix[i]);
                assert(j.subrange(a, a + list[i].len()) =~= p.subrange(a, a + prefix[i].len()));
            } else {
                assert(j.subrange((p.len() + sep.len()) as int, j.len() as int) =~= x);
            }
        }
        assert forall|i: int| 1 <= i < n implies #[trigger] j.subrange(
            join_offset(list, sep, i) - sep.len(),
            join_offset(list, sep, i),
        ) == sep by {
            if i < n - 1 {
                lemma_join_offset_prefix(list, sep, i);
                let a = join_offset(prefix, sep, i);
                assert(a + prefix[i].len() <= p.len());
                assert(p.subrange(a - sep.len(), a) == sep);
                assert(j.subrange(a - sep.len(), a) =~= p.subrange(a - sep.len(), a));
            } else {
                assert(j.subrange(p.len() as int, (p.len() + sep.len()) as int) =~= sep);
            }
        }
    }
}

/// A track's artist line holds every artist's name, in list order, with
/// ", " between each two and nothing else; two artists `a` and `b` give
/// `a, b`, and a track without artists gives an empty line.
pub proof fn lemma_track_artist_line(artists: Vec<String>)
    ensures
        ({
            let names = string_views(artists@);
            let line = artist_text(UniqueFields::Track { artists });
            &&& names.len() == 0 ==> line.len() == 0
            &&& names.len() == 1 ==> line == names[0]
            &&& names.len() == 2 ==> line == names[0] + ", "@ + names[1]
            &&& names.len() >= 1 ==> {
                &&& line.len() == join_offset(names, ", "@, names.len() - 1) + names.last().len()
                &&& forall|i: int|
                    0 <= i < names.len() ==> #[trigger] line.subrange(
                        join_offset(names, ", "@, i),
                        join_offset(names, ", "@, i) + names[i].len(),
                    ) == names[i]
                &&& forall|i: int|
                    1 <= i < names.len() ==> #[trigger] line.subrange(
                        join_offset(names, ", "@, i) - 2,
                        join_offset(names, ", "@, i),
                    ) == ", "@
            }
        }),
{
    let names = string_views(artists@);
    reveal_strlit(", ");
    if names.len() >= 1 {
        lemma_join_layout(names, ", "@);
    }
    if names.len() == 2 {
        assert(names.drop_last().len() == 1);
        assert(seq_join(names.drop_last(), ", "@) == names[0]);
    }
}

/// An episode's artist line is its show's name; a local file's is the
/// artist text it carries, or "Local audio" when it carries none.
pub proof fn lemma_other_artist_lines(show_name: String, artists: Option<String>)
    ensures
        artist_text(UniqueFields::Episode { show_name }) == show_name@,
        artist_text(UniqueFields::Local { artists }) == match artists {
            Some(a) => a@,
            None => "Local audio"@,
        },
{
}

} // verus!
