//! The icons bundled with the capture app, by asset path.

use vstd::prelude::*;

use crate::text::{chars_of, owned, same_text, starts_with, starts_with_spec};

verus! {

/// The asset paths of the bundled icons, in the order they are listed.
pub open spec fn icon_paths() -> Seq<Seq<char>> {
    seq![
        "icons/play.svg"@,
        "icons/pause.svg"@,
        "icons/playback-back.svg"@,
        "icons/playback-forward.svg"@,
        "icons/corner-circle.svg"@,
        "icons/corner-squircle.svg"@,
        "icons/shape-frame.svg"@,
        "icons/close.svg"@,
        "icons/check.svg"@,
        "icons/chevron-down.svg"@,
    ]
}

/// The asset paths of the bundled icons.
fn icons() -> (r: Vec<&'static str>)
    ensures
        r@.len() == icon_paths().len(),
        forall|i: int| 0 <= i < r@.len() ==> (#[trigger] r@[i])@ == icon_paths()[i],
{
    let r = vec![
        "icons/play.svg",
        "icons/pause.svg",
        "icons/playback-back.svg",
        "icons/playback-forward.svg",
        "icons/corner-circle.svg",
        "icons/corner-squircle.svg",
        "icons/shape-frame.svg",
        "icons/close.svg",
        "icons/check.svg",
        "icons/chevron-down.svg",
    ];
    proof {
        reveal_strlit("icons/play.svg");
        reveal_strlit("icons/pause.svg");
        reveal_strlit("icons/playback-back.svg");
        reveal_strlit("icons/playback-forward.svg");
        reveal_strlit("icons/corner-circle.svg");
        reveal_strlit("icons/corner-squircle.svg");
        reveal_strlit("icons/shape-frame.svg");
        reveal_strlit("icons/close.svg");
        reveal_strlit("icons/check.svg");
        reveal_strlit("icons/chevron-down.svg");
    }
    r
}

/// The bundled asset paths that start with `prefix`, in listing order.
pub open spec fn listed_under(prefix: Seq<char>) -> Seq<Seq<char>> {
    icon_paths().filter(|p: Seq<char>| starts_with_spec(p, prefix))
}

/// The bundled assets whose paths start with `prefix`.
pub fn list(prefix: &str) -> (r: Vec<String>)
    ensures
        r@.map_values(|s: String| s@) == listed_under(prefix@),
{
    let all = icons();
    let mut out: Vec<String> = Vec::new();
    let mut i: usize = 0;
    while i < all.len()
        invariant
            i <= all@.len(),
            all@.len() == icon_paths().len(),
            forall|k: int| 0 <= k < all@.len() ==> (#[trigger] all@[k])@ == icon_paths()[k],
            out@.map_values(|s: String| s@) == icon_paths().take(i as int).filter(
                |p: Seq<char>| starts_with_spec(p, prefix@),
            ),
        decreases all@.len() - i,
    {
        let path = all[i];
        let chars = chars_of(path);
        let keep = starts_with(chars.as_slice(), prefix);
        let ghost before = out@;
        proof {
            assert(icon_paths().take(i + 1).drop_last() =~= icon_paths().take(i as int));
            icon_paths().take(i as int).lemma_filter_push(
                icon_paths()[i as int],
                |p: Seq<char>| starts_with_spec(p, prefix@),
            );
            assert(icon_paths().take(i as int).push(icon_paths()[i as int]) =~= icon_paths().take(i + 1));
        }
        if keep {
            out.push(owned(path));
            assert(out@.map_values(|s: String| s@) =~= before.map_values(|s: String| s@).push(path@));
        }
        i = i + 1;
    }
    assert(icon_paths().take(all@.len() as int) =~= icon_paths());
    out
}

/// The position of the bundled asset at `path`, if there is one.
pub fn find(path: &str) -> (r: Option<usize>)
    ensures
        match r {
            Some(i) => i < icon_paths().len() && icon_paths()[i as int] == path@,
            None => !icon_paths().contains(path@),
        },
{
    let all = icons();
    let mut i: usize = 0;
    while i < all.len()
        invariant
            i <= all@.len(),
            all@.len() == icon_paths().len(),
            forall|k: int| 0 <= k < all@.len() ==> (#[trigger] all@[k])@ == icon_paths()[k],
            forall|k: int| 0 <= k < i ==> icon_paths()[k] != path@,
        decreases all@.len() - i,
    {
        if same_text(all[i], path) {
            return Some(i);
        }
        i = i + 1;
    }
    None
}

} // verus!
