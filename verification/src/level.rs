use vstd::prelude::*;
use vstd::string::StringExecFns;

verus! {

/// Whether the music visualizer is shown (a setting of the configuration).
#[derive(Clone, Copy, Debug, PartialEq, Eq, Structural)]
pub struct VisualizerConfig {
    pub enabled: bool,
}

/// A level's music visualizer: how many bars it asks for.
#[derive(Clone, Copy, Debug, PartialEq, Eq, Structural)]
pub struct AudioVisualizer {
    pub bar_count: usize,
}

/// The fewest bars a visualizer shows.
pub const MIN_BARS: usize = 16;

/// The most bars a visualizer shows.
pub const MAX_BARS: usize = 160;

impl AudioVisualizer {
    /// The number of bars shown: the requested count, kept between 16 and 160.
    pub fn shown_bar_count(&self) -> (count: usize)
        ensures
            count == if self.bar_count < MIN_BARS {
                MIN_BARS
            } else if self.bar_count > MAX_BARS {
                MAX_BARS
            } else {
                self.bar_count
            },
            MIN_BARS <= count <= MAX_BARS,
    {
        self.bar_count.max(MIN_BARS).min(MAX_BARS)
    }

    /// How many bars to spawn with the level's music: the shown count when
    /// the visualizer is enabled in `config`, none otherwise.
    pub fn bars_to_spawn(&self, config: &VisualizerConfig) -> (count: usize)
        ensures
            !config.enabled ==> count == 0,
            config.enabled ==> MIN_BARS <= count <= MAX_BARS,
            config.enabled ==> count == if self.bar_count < MIN_BARS {
                MIN_BARS
            } else if self.bar_count > MAX_BARS {
                MAX_BARS
            } else {
                self.bar_count
            },
    {
        if config.enabled {
            self.shown_bar_count()
        } else {
            0
        }
    }
}


/// The message for an object that names a prefab that does not exist.
pub open spec fn unknown_prefab_message(name: Seq<char>) -> Seq<char> {
    "Unknown prefab: "@ + name
}

/// The message for an object that lacks `field`, with no prefab to supply it.
pub open spec fn missing_field_message(field: Seq<char>) -> Seq<char> {
    "missing "@ + field
}

/// The error for an object whose prefab `name` is unknown.
pub fn unknown_prefab(name: &str) -> (message: String)
    ensures
        message@ == unknown_prefab_message(name@),
{
    let mut message = String::from_str("Unknown prefab: ");
    message.append(name);
    message
}

/// A field of a level object: its own value, else its prefab's, else an
/// error naming the missing `field`.
pub fn resolve_field<T: Copy>(own: Option<T>, from_prefab: Option<T>, field: &str) -> (r: Result<
    T,
    String,
>)
    ensures
        match (own, from_prefab) {
            (Some(v), _) => r == Ok::<T, String>(v),
            (None, Some(v)) => r == Ok::<T, String>(v),
            (None, None) => r matches Err(e) && e@ == missing_field_message(field@),
        },
{
    match own {
        Some(v) => Ok(v),
        None => match from_prefab {
            Some(v) => Ok(v),
            None => {
                let mut message = String::from_str("missing ");
                message.append(field);
                Err(message)
            },
        },
    }
}

/// The error for an object that has no collider of its own, none from its
/// prefab, and no shape to collide as.
pub const NO_COLLIDER: &'static str = "non-shape objects should have a collider";

/// The collider of a level object: its own, else its prefab's, else the
/// shape it is drawn as (`from_shape`, when it is drawn as a shape), else an
/// error.
pub fn resolve_collider<'a, C>(
    own: Option<&'a C>,
    from_prefab: Option<&'a C>,
    from_shape: Option<&'a C>,
) -> (r: Result<&'a C, &'static str>)
    ensures
        match (own, from_prefab, from_shape) {
            (Some(c), _, _) => r == Ok::<&'a C, &'static str>(c),
            (None, Some(c), _) => r == Ok::<&'a C, &'static str>(c),
            (None, None, Some(c)) => r == Ok::<&'a C, &'static str>(c),
            (None, None, None) => r matches Err(e) && e@ == NO_COLLIDER@,
        },
{
    match own {
        Some(c) => Ok(c),
        None => match from_prefab {
            Some(c) => Ok(c),
            None => match from_shape {
                Some(c) => Ok(c),
                None => Err(NO_COLLIDER),
            },
        },
    }
}

} // verus!
