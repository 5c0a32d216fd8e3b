//! The built-in LilyPond lessons that the file library lists beside the saved scores.
use vstd::prelude::*;

verus! {

/// One lesson of the tutorial: a title and a LilyPond example that opens in the editor.
pub struct TutorialLesson {
    /// The lesson's title.
    pub title: &'static str,
    /// LilyPond source that demonstrates the lesson.
    pub example: &'static str,
}

/// The number of lessons in the tutorial.
pub const LESSON_COUNT: usize = 5;

/// Title of the lesson "Pitch, Duration, and Relative Mode".
pub const PITCH_AND_DURATION_TITLE: &'static str = "Pitch, Duration, and Relative Mode";

/// Example of the lesson "Pitch, Duration, and Relative Mode".
pub const PITCH_AND_DURATION_EXAMPLE: &'static str = r#"\version "2.24.0"
\header {
  title = "First Steps"
  subtitle = "Pitch and Duration"
}
\score {
  \new Staff \relative c' {
    \key c \major
    \time 4/4
    c4 d e f
    g2 g
    a4 g f e
    d1
  }
  \layout { }
}"#;

/// Title of the lesson "Chords and Voices".
pub const CHORDS_AND_VOICES_TITLE: &'static str = "Chords and Voices";

/// Example of the lesson "Chords and Voices".
pub const CHORDS_AND_VOICES_EXAMPLE: &'static str = r#"\version "2.24.0"
\header {
  title = "Layered Motion"
  subtitle = "Chords and Voices"
}
\score {
  \new Staff <<
    \new Voice = "upper" {
      \voiceOne
      \relative c'' {
        <g b d>2 <a c e>
        g4 f e d
      }
    }
    \new Voice = "lower" {
      \voiceTwo
      \relative c' {
        c2 a
        g2 g
      }
    }
  >>
  \layout { }
}"#;

/// Title of the lesson "Lyrics and Repeats".
pub const LYRICS_AND_REPEATS_TITLE: &'static str = "Lyrics and Repeats";

/// Example of the lesson "Lyrics and Repeats".
pub const LYRICS_AND_REPEATS_EXAMPLE: &'static str = r#"\version "2.24.0"
melody = \relative c' {
  \key g \major
  \time 2/4
  \repeat volta 2 {
    g4 a
    b8 c b a
    g2
  }
}
text = \lyricmode {
  Sing a lit -- tle line,
  hold it now.
}
\score {
  <<
    \new Staff {
      \new Voice = "mel" { \melody }
    }
    \new Lyrics \lyricsto "mel" { \text }
  >>
  \layout { }
}"#;

/// Title of the lesson "Dynamics and Articulation".
pub const DYNAMICS_AND_ARTICULATION_TITLE: &'static str = "Dynamics and Articulation";

/// Example of the lesson "Dynamics and Articulation".
pub const DYNAMICS_AND_ARTICULATION_EXAMPLE: &'static str = r#"\version "2.24.0"
\score {
  \new Staff \relative c'' {
    \key d \minor
    \time 3/4
    a4\p( bes c)
    d4-> c bes
    a2.\<
    g4\! f\mf e-.
    d2.\f
  }
  \layout { }
}"#;

/// Title of the lesson "Headers, Layout, and Paper".
pub const HEADERS_LAYOUT_AND_PAPER_TITLE: &'static str = "Headers, Layout, and Paper";

/// Example of the lesson "Headers, Layout, and Paper".
pub const HEADERS_LAYOUT_AND_PAPER_EXAMPLE: &'static str = r#"\version "2.24.0"
\header {
  title = "Studio Layout Demo"
  composer = "LilyPond Studio"
  tagline = ##f
}
\paper {
  top-margin = 12\mm
  bottom-margin = 12\mm
  left-margin = 15\mm
  right-margin = 15\mm
}
\score {
  \new Staff \relative c' {
    \key f \major
    \time 4/4
    \tempo 4 = 88
    f4 g a bes
    c2 bes
    a4 g f e
    f1
  }
  \layout {
    indent = 0
  }
}"#;

/// The title of lesson `i`, in tutorial order.
pub open spec fn lesson_title(i: int) -> Seq<char> {
    if i == 0 {
        PITCH_AND_DURATION_TITLE@
    } else if i == 1 {
        CHORDS_AND_VOICES_TITLE@
    } else if i == 2 {
        LYRICS_AND_REPEATS_TITLE@
    } else if i == 3 {
        DYNAMICS_AND_ARTICULATION_TITLE@
    } else {
        HEADERS_LAYOUT_AND_PAPER_TITLE@
    }
}

/// The LilyPond example of lesson `i`, in tutorial order.
pub open spec fn lesson_example(i: int) -> Seq<char> {
    if i == 0 {
        PITCH_AND_DURATION_EXAMPLE@
    } else if i == 1 {
        CHORDS_AND_VOICES_EXAMPLE@
    } else if i == 2 {
        LYRICS_AND_REPEATS_EXAMPLE@
    } else if i == 3 {
        DYNAMICS_AND_ARTICULATION_EXAMPLE@
    } else {
        HEADERS_LAYOUT_AND_PAPER_EXAMPLE@
    }
}

/// All lessons, in the order the library lists them.
pub fn lessons() -> (v: Vec<TutorialLesson>)
    ensures
        v@.len() == LESSON_COUNT,
        forall|i: int|
            0 <= i < LESSON_COUNT ==> (#[trigger] v@[i]).title@ == lesson_title(i)
                && v@[i].example@ == lesson_example(i),
{
    let mut v: Vec<TutorialLesson> = Vec::new();
    v.push(TutorialLesson { title: PITCH_AND_DURATION_TITLE, example: PITCH_AND_DURATION_EXAMPLE });
    v.push(TutorialLesson { title: CHORDS_AND_VOICES_TITLE, example: CHORDS_AND_VOICES_EXAMPLE });
    v.push(TutorialLesson { title: LYRICS_AND_REPEATS_TITLE, example: LYRICS_AND_REPEATS_EXAMPLE });
    v.push(TutorialLesson { title: DYNAMICS_AND_ARTICULATION_TITLE, example: DYNAMICS_AND_ARTICULATION_EXAMPLE });
    v.push(TutorialLesson { title: HEADERS_LAYOUT_AND_PAPER_TITLE, example: HEADERS_LAYOUT_AND_PAPER_EXAMPLE });
    v
}

/// The LilyPond source that a new library starts with: the first lesson's example.
pub fn default_source() -> (s: &'static str)
    ensures
        s@ == lesson_example(0),
{
    PITCH_AND_DURATION_EXAMPLE
}

} // verus!
