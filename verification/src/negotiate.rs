//! Format negotiation: from what an application prefers and what a
//! synthesiser can produce to the one format both accept.
//!
//! Sample rate, channel layout and container are hard constraints: where the
//! application has asked for values and the synthesiser supports none of
//! them, there is no format. Among the values that both accept, the
//! application's ranking decides. The bitrate is a soft constraint: the
//! synthesiser's bitrate closest to the application's first choice is taken.

use crate::audio::{
    ranked, AudioChannels, AudioContainer, AudioFormat, AudioFormatPreference,
    AudioFormatPreferenceView, AudioFormatView,
};
use vstd::prelude::*;

verus! {

/// The values of `prefs` that `supported` holds too, in the order of `prefs`.
pub open spec fn mutual<T>(prefs: Seq<T>, supported: Seq<T>) -> Seq<T> {
    prefs.filter(|v: T| supported.contains(v))
}

/// Whether the application has asked for anything in a dimension. An empty
/// list asks for nothing, like no list.
pub open spec fn is_requested<T>(pref: Option<Seq<T>>) -> bool {
    pref matches Some(prefs) && prefs.len() > 0
}

/// Whether a dimension has been asked for and none of the values asked for
/// is supported.
pub open spec fn is_unmet<T>(pref: Option<Seq<T>>, supported: Seq<T>) -> bool {
    &&& pref matches Some(prefs)
    &&& prefs.len() > 0
    &&& forall|i: int| 0 <= i < prefs.len() ==> !supported.contains(#[trigger] prefs[i])
}

/// Whether `v` is the highest-ranked value of `prefs` that `supported`
/// holds: it stands in `prefs` at some place, is supported, and nothing
/// before that place is.
pub open spec fn is_top_choice<T>(v: T, prefs: Seq<T>, supported: Seq<T>) -> bool {
    exists|k: int|
        {
            &&& 0 <= k < prefs.len()
            &&& #[trigger] prefs[k] == v
            &&& supported.contains(v)
            &&& forall|j: int| 0 <= j < k ==> !supported.contains(#[trigger] prefs[j])
        }
}

/// Whether `v` is what negotiation chooses in a hard dimension: the
/// highest-ranked value asked for that is supported, or, where nothing has
/// been asked for, the first value that the synthesiser lists.
pub open spec fn is_choice<T>(v: T, pref: Option<Seq<T>>, supported: Seq<T>) -> bool {
    if is_requested(pref) {
        is_top_choice(v, pref.unwrap(), supported)
    } else {
        supported.len() > 0 && v == supported[0]
    }
}

/// The value chosen in a hard dimension. Where values have been asked for,
/// the first of them that is supported; where none has, the first that the
/// synthesiser lists. `None` where there is no such value.
pub open spec fn resolved<T>(pref: Option<Seq<T>>, supported: Seq<T>) -> Option<T> {
    let candidates = if is_requested(pref) {
        mutual(pref.unwrap(), supported)
    } else {
        supported
    };
    if candidates.len() > 0 {
        Some(candidates[0])
    } else {
        None
    }
}

/// How far two bitrates are apart.
pub open spec fn distance(a: u16, b: u16) -> int {
    if a >= b {
        a - b
    } else {
        b - a
    }
}

/// Whether `a` is as close to `target` as `b`: nearer to it, or as near and
/// not lower.
pub open spec fn is_as_close(a: u16, b: u16, target: u16) -> bool {
    ||| distance(a, target) < distance(b, target)
    ||| distance(a, target) == distance(b, target) && a >= b
}

/// Whether `bitrate` is the supported bitrate closest to `target`: the one
/// nearest to it, and the higher one where two are equally near.
pub open spec fn is_closest(bitrate: u16, target: u16, supported: Seq<u16>) -> bool {
    &&& supported.contains(bitrate)
    &&& forall|i: int|
        0 <= i < supported.len() ==> is_as_close(bitrate, #[trigger] supported[i], target)
}

/// The supported bitrate closest to `target`. There is one as soon as a
/// bitrate is supported, and never two.
pub open spec fn closest(target: u16, supported: Seq<u16>) -> u16 {
    choose|bitrate: u16| is_closest(bitrate, target, supported)
}

/// The bitrate chosen for a container. None where the container has no
/// bitrate to choose or the synthesiser lists none. Otherwise the listed
/// bitrate closest to the application's first choice, or, where the
/// application has not asked for any, the first that the synthesiser lists.
pub open spec fn resolved_bitrate(
    pref: Option<Seq<u16>>,
    supported: Seq<u16>,
    container: AudioContainer,
) -> Option<u16> {
    if !container.carries_bitrate() || supported.len() == 0 {
        None
    } else if is_requested(pref) {
        Some(closest(pref.unwrap()[0], supported))
    } else {
        Some(supported[0])
    }
}

/// What a synthesiser can produce, as a value: every combination of one
/// listed sample rate, one listed channel layout, one listed container and,
/// where the container has a bitrate to choose, one listed bitrate.
pub struct AudioCapabilitiesView {
    pub sample_rates: Seq<u32>,
    pub channels: Seq<AudioChannels>,
    pub bitrates: Seq<u16>,
    pub containers: Seq<AudioContainer>,
}

impl AudioCapabilitiesView {
    /// Whether something is listed in each hard dimension.
    pub open spec fn is_complete(self) -> bool {
        &&& self.sample_rates.len() > 0
        &&& self.channels.len() > 0
        &&& self.containers.len() > 0
    }

    /// Whether the synthesiser can produce `format`: its sample rate, its
    /// channel layout and its container are listed, and it has a bitrate,
    /// a listed one, exactly if its container has a bitrate to choose and
    /// bitrates are listed.
    pub open spec fn produces(self, format: AudioFormatView) -> bool {
        &&& self.sample_rates.contains(format.sample_rate)
        &&& self.channels.contains(format.channels)
        &&& self.containers.contains(format.container)
        &&& if format.container.carries_bitrate() && self.bitrates.len() > 0 {
            format.bitrate matches Some(bitrate) && self.bitrates.contains(bitrate)
        } else {
            format.bitrate is None
        }
    }
}

/// The format that negotiation gives, if there is one.
pub open spec fn negotiated(
    pref: AudioFormatPreferenceView,
    caps: AudioCapabilitiesView,
) -> Option<AudioFormatView> {
    match (
        resolved(pref.sample_rates, caps.sample_rates),
        resolved(pref.channels, caps.channels),
        resolved(pref.containers, caps.containers),
    ) {
        (Some(sample_rate), Some(channels), Some(container)) => Some(
            AudioFormatView {
                sample_rate,
                channels,
                bitrate: resolved_bitrate(pref.bitrates, caps.bitrates, container),
                container,
                name: None,
            },
        ),
        _ => None,
    }
}

/// An optional format as a value.
pub open spec fn format_view(format: Option<AudioFormat>) -> Option<AudioFormatView> {
    match format {
        Some(f) => Some(f@),
        None => None,
    }
}

/// What a synthesiser can produce: every combination of one listed sample
/// rate, one listed channel layout, one listed container and, where the
/// container has a bitrate to choose, one listed bitrate. The first value
/// listed in a dimension is the synthesiser's default there. Something is
/// listed in each hard dimension.
#[derive(Debug)]
pub struct AudioCapabilities {
    sample_rates: Vec<u32>,
    channels: Vec<AudioChannels>,
    bitrates: Vec<u16>,
    containers: Vec<AudioContainer>,
}

impl View for AudioCapabilities {
    type V = AudioCapabilitiesView;

    closed spec fn view(&self) -> AudioCapabilitiesView {
        AudioCapabilitiesView {
            sample_rates: self.sample_rates@,
            channels: self.channels@,
            bitrates: self.bitrates@,
            containers: self.containers@,
        }
    }
}

impl AudioCapabilities {
    #[verifier::type_invariant]
    spec fn lists_every_hard_dimension(&self) -> bool {
        self@.is_complete()
    }

    /// The capabilities with the given lists, each in the synthesiser's own
    /// order of preference. `None` where a list of sample rates, channel
    /// layouts or containers is empty: such a synthesiser could produce
    /// nothing. The list of bitrates may be empty.
    pub fn new(
        sample_rates: Vec<u32>,
        channels: Vec<AudioChannels>,
        bitrates: Vec<u16>,
        containers: Vec<AudioContainer>,
    ) -> (r: Option<Self>)
        ensures
            r is Some <==> sample_rates@.len() > 0 && channels@.len() > 0 && containers@.len() > 0,
            r matches Some(caps) ==> caps@ == (AudioCapabilitiesView {
                sample_rates: sample_rates@,
                channels: channels@,
                bitrates: bitrates@,
                containers: containers@,
            }),
    {
        if sample_rates.len() == 0 || channels.len() == 0 || containers.len() == 0 {
            None
        } else {
            Some(AudioCapabilities { sample_rates, channels, bitrates, containers })
        }
    }
}

impl Clone for AudioCapabilities {
    fn clone(&self) -> (r: Self)
        ensures
            r@ == self@,
    {
        proof {
            use_type_invariant(self);
        }
        AudioCapabilities {
            sample_rates: self.sample_rates.clone(),
            channels: self.channels.clone(),
            bitrates: self.bitrates.clone(),
            containers: self.containers.clone(),
        }
    }
}

/// Negotiates the format for an application that prefers `pref` with a
/// synthesiser that can produce `caps`.
///
/// There is no format exactly if the application has asked for sample
/// rates, for channel layouts or for containers and the synthesiser supports
/// none of those asked for. Otherwise each of the three is the
/// highest-ranked value asked for that the synthesiser supports, or the
/// synthesiser's default where the application has not asked. A container
/// is supported only together with what it frames. The bitrate never makes
/// negotiation fail: see [`resolved_bitrate`]. The format has no name.
pub fn negotiate(pref: &AudioFormatPreference, caps: &AudioCapabilities) -> (r: Option<AudioFormat>)
    ensures
        format_view(r) == negotiated(pref@, caps@),
        r is None <==> {
            ||| is_unmet(pref@.sample_rates, caps@.sample_rates)
            ||| is_unmet(pref@.channels, caps@.channels)
            ||| is_unmet(pref@.containers, caps@.containers)
        },
{
    proof {
        use_type_invariant(caps);
    }
    let sample_rate = match resolve(&pref.sample_rates, &caps.sample_rates) {
        Some(v) => v,
        None => {
            return None;
        },
    };
    let channels = match resolve(&pref.channels, &caps.channels) {
        Some(v) => v,
        None => {
            return None;
        },
    };
    let container = match resolve(&pref.containers, &caps.containers) {
        Some(v) => v,
        None => {
            return None;
        },
    };
    let bitrate = resolve_bitrate(&pref.bitrates, &caps.bitrates, container);
    Some(AudioFormat::new(sample_rate, channels, bitrate, container))
}

/// A value of one dimension of a format, which can be told from another.
trait Dimension: Copy {
    fn same(self, other: Self) -> (r: bool)
        ensures
            r == (self == other),
    ;
}

impl Dimension for u32 {
    fn same(self, other: Self) -> (r: bool) {
        self == other
    }
}

impl Dimension for AudioChannels {
    fn same(self, other: Self) -> (r: bool) {
        self == other
    }
}

impl Dimension for AudioContainer {
    fn same(self, other: Self) -> (r: bool) {
        self == other
    }
}

fn lists<T: Dimension>(supported: &Vec<T>, v: T) -> (r: bool)
    ensures
        r == supported@.contains(v),
{
    let mut i: usize = 0;
    while i < supported.len()
        invariant
            i <= supported.len(),
            forall|j: int| 0 <= j < i ==> supported@[j] != v,
        decreases supported.len() - i,
    {
        if supported[i].same(v) {
            return true;
        }
        i += 1;
    }
    false
}

fn first_mutual<T: Dimension>(prefs: &Vec<T>, supported: &Vec<T>) -> (r: Option<T>)
    ensures
        r is Some <==> mutual(prefs@, supported@).len() > 0,
        r matches Some(v) ==> v == mutual(prefs@, supported@)[0],
{
    let mut i: usize = 0;
    while i < prefs.len()
        invariant
            i <= prefs.len(),
            forall|j: int| 0 <= j < i ==> !supported@.contains(#[trigger] prefs@[j]),
        decreases prefs.len() - i,
    {
        if lists(supported, prefs[i]) {
            proof {
                first_supported_is_first_mutual(prefs@, supported@, i as int);
            }
            return Some(prefs[i]);
        }
        i += 1;
    }
    proof {
        mutual_is_empty_iff_disjoint(prefs@, supported@);
    }
    None
}

fn resolve<T: Dimension>(pref: &Option<Vec<T>>, supported: &Vec<T>) -> (r: Option<T>)
    ensures
        r == resolved(ranked(*pref), supported@),
        supported@.len() > 0 ==> (r is None <==> is_unmet(ranked(*pref), supported@)),
{
    proof {
        if let Some(prefs) = pref {
            mutual_is_empty_iff_disjoint(prefs@, supported@);
        }
    }
    match pref {
        Some(prefs) if prefs.len() > 0 => first_mutual(prefs, supported),
        _ => if supported.len() > 0 {
            Some(supported[0])
        } else {
            None
        },
    }
}

fn apart(a: u16, b: u16) -> (r: u16)
    ensures
        r == distance(a, b),
{
    if a >= b {
        a - b
    } else {
        b - a
    }
}

fn closest_bitrate(target: u16, supported: &Vec<u16>) -> (r: u16)
    requires
        supported@.len() > 0,
    ensures
        r == closest(target, supported@),
        is_closest(r, target, supported@),
{
    let mut best: u16 = supported[0];
    let mut i: usize = 1;
    while i < supported.len()
        invariant
            1 <= i <= supported.len(),
            supported@.contains(best),
            forall|j: int| 0 <= j < i ==> is_as_close(best, #[trigger] supported@[j], target),
        decreases supported.len() - i,
    {
        let candidate: u16 = supported[i];
        let d: u16 = apart(candidate, target);
        let e: u16 = apart(best, target);
        if d < e || (d == e && candidate > best) {
            best = candidate;
        }
        i += 1;
    }
    proof {
        closest_is_unique(best, best, target, supported@);
    }
    best
}

fn resolve_bitrate(pref: &Option<Vec<u16>>, supported: &Vec<u16>, container: AudioContainer) -> (r:
    Option<u16>)
    ensures
        r == resolved_bitrate(ranked(*pref), supported@, container),
{
    if !container.has_bitrate() || supported.len() == 0 {
        return None;
    }
    match pref {
        Some(prefs) if prefs.len() > 0 => Some(closest_bitrate(prefs[0], supported)),
        _ => Some(supported[0]),
    }
}

/// Where the application has asked for values in a hard dimension and the
/// synthesiser supports none of them, negotiation gives no format.
pub proof fn unmet_request_gives_no_format(pref: AudioFormatPreference, caps: AudioCapabilities)
    requires
        ({
            ||| is_unmet(pref@.sample_rates, caps@.sample_rates)
            ||| is_unmet(pref@.channels, caps@.channels)
            ||| is_unmet(pref@.containers, caps@.containers)
        }),
    ensures
        negotiated(pref@, caps@) is None,
{
    resolved_is_choice(pref@.sample_rates, caps@.sample_rates);
    resolved_is_choice(pref@.channels, caps@.channels);
    resolved_is_choice(pref@.containers, caps@.containers);
}

/// Where the synthesiser supports a value asked for in every hard dimension
/// that the application has asked for, negotiation gives a format, and each
/// of its sample rate, channel layout and container is the highest-ranked
/// value asked for that is supported.
pub proof fn met_requests_give_top_choices(pref: AudioFormatPreference, caps: AudioCapabilities)
    requires
        caps@.is_complete(),
        !is_unmet(pref@.sample_rates, caps@.sample_rates),
        !is_unmet(pref@.channels, caps@.channels),
        !is_unmet(pref@.containers, caps@.containers),
    ensures
        negotiated(pref@, caps@) matches Some(format) && {
            &&& is_choice(format.sample_rate, pref@.sample_rates, caps@.sample_rates)
            &&& is_choice(format.channels, pref@.channels, caps@.channels)
            &&& is_choice(format.container, pref@.containers, caps@.containers)
        },
{
    resolved_is_choice(pref@.sample_rates, caps@.sample_rates);
    resolved_is_choice(pref@.channels, caps@.channels);
    resolved_is_choice(pref@.containers, caps@.containers);
}

/// The bitrate of a negotiated format: absent exactly if the container has
/// none to choose or the synthesiser lists none; else, where the
/// application has asked for bitrates, the listed bitrate closest to its
/// first choice, and the first listed where it has not.
pub proof fn negotiated_bitrate_is_closest(pref: AudioFormatPreference, caps: AudioCapabilities)
    requires
        negotiated(pref@, caps@) is Some,
    ensures
        ({
            let format = negotiated(pref@, caps@).unwrap();
            &&& format.bitrate is None <==> !format.container.carries_bitrate()
                || caps@.bitrates.len() == 0
            &&& format.bitrate matches Some(bitrate) ==> if is_requested(pref@.bitrates) {
                is_closest(bitrate, pref@.bitrates.unwrap()[0], caps@.bitrates)
            } else {
                bitrate == caps@.bitrates[0]
            }
        }),
{
    if is_requested(pref@.bitrates) && caps@.bitrates.len() > 0 {
        closest_exists(pref@.bitrates.unwrap()[0], caps@.bitrates, caps@.bitrates.len() as int);
    }
}

/// A negotiated format is one that the synthesiser can produce.
pub proof fn negotiated_format_is_produced(pref: AudioFormatPreference, caps: AudioCapabilities)
    requires
        negotiated(pref@, caps@) is Some,
    ensures
        caps@.produces(negotiated(pref@, caps@).unwrap()),
{
    let format = negotiated(pref@, caps@).unwrap();
    resolved_is_choice(pref@.sample_rates, caps@.sample_rates);
    resolved_is_choice(pref@.channels, caps@.channels);
    resolved_is_choice(pref@.containers, caps@.containers);
    negotiated_bitrate_is_closest(pref, caps);
    assert(caps@.sample_rates.contains(format.sample_rate)) by {
        if !is_requested(pref@.sample_rates) {
            assert(caps@.sample_rates[0] == format.sample_rate);
        }
    }
    assert(caps@.channels.contains(format.channels)) by {
        if !is_requested(pref@.channels) {
            assert(caps@.channels[0] == format.channels);
        }
    }
    assert(caps@.containers.contains(format.container)) by {
        if !is_requested(pref@.containers) {
            assert(caps@.containers[0] == format.container);
        }
    }
    if format.bitrate is Some && !is_requested(pref@.bitrates) {
        assert(caps@.bitrates[0] == format.bitrate.unwrap());
    }
}

/// Negotiation depends on its inputs by value alone: with equal preferences
/// and equal capabilities it gives equal formats, however often it is asked.
pub proof fn negotiation_is_repeatable(
    pref: AudioFormatPreference,
    caps: AudioCapabilities,
    same_pref: AudioFormatPreference,
    same_caps: AudioCapabilities,
)
    requires
        pref@ == same_pref@,
        caps@ == same_caps@,
    ensures
        negotiated(pref@, caps@) == negotiated(same_pref@, same_caps@),
{
}

/// In one hard dimension: no value is chosen exactly if the request is unmet
/// or nothing is listed and nothing asked for, and a value that is chosen is
/// the choice described by [`is_choice`].
pub proof fn resolved_is_choice<T>(pref: Option<Seq<T>>, supported: Seq<T>)
    ensures
        resolved(pref, supported) is None <==> is_unmet(pref, supported) || (!is_requested(pref)
            && supported.len() == 0),
        resolved(pref, supported) matches Some(v) ==> is_choice(v, pref, supported),
{
    if is_requested(pref) {
        mutual_is_empty_iff_disjoint(pref.unwrap(), supported);
        if mutual(pref.unwrap(), supported).len() > 0 {
            first_mutual_is_top_choice(pref.unwrap(), supported);
        }
    }
}

/// No value is mutual exactly if no value asked for is supported.
pub proof fn mutual_is_empty_iff_disjoint<T>(prefs: Seq<T>, supported: Seq<T>)
    ensures
        mutual(prefs, supported).len() == 0 <==> forall|i: int|
            0 <= i < prefs.len() ==> !supported.contains(#[trigger] prefs[i]),
    decreases prefs.len(),
{
    reveal(Seq::filter);
    if prefs.len() > 0 {
        let front = prefs.drop_last();
        mutual_is_empty_iff_disjoint(front, supported);
        if mutual(prefs, supported).len() == 0 {
            assert forall|i: int| 0 <= i < prefs.len() implies !supported.contains(
                #[trigger] prefs[i],
            ) by {
                if i < front.len() {
                    assert(front[i] == prefs[i]);
                }
            }
        }
        if forall|i: int| 0 <= i < prefs.len() ==> !supported.contains(#[trigger] prefs[i]) {
            assert forall|i: int| 0 <= i < front.len() implies !supported.contains(
                #[trigger] front[i],
            ) by {
                assert(front[i] == prefs[i]);
            }
        }
    }
}

/// Where a value asked for is supported, the first mutual value is the
/// highest-ranked value asked for that is supported.
pub proof fn first_mutual_is_top_choice<T>(prefs: Seq<T>, supported: Seq<T>)
    requires
        mutual(prefs, supported).len() > 0,
    ensures
        is_top_choice(mutual(prefs, supported)[0], prefs, supported),
{
    mutual_is_empty_iff_disjoint(prefs, supported);
    let k = least_supported(prefs, supported, prefs.len() as int);
    first_supported_is_first_mutual(prefs, supported, k);
}

/// At most one bitrate is the closest to a target, and `closest` is that
/// one.
pub proof fn closest_is_unique(a: u16, b: u16, target: u16, supported: Seq<u16>)
    requires
        is_closest(a, target, supported),
        is_closest(b, target, supported),
    ensures
        a == b,
        closest(target, supported) == a,
{
    let i = supported.index_of(a);
    let j = supported.index_of(b);
    assert(is_as_close(b, supported[i], target));
    assert(is_as_close(a, supported[j], target));
    let c = closest(target, supported);
    let l = supported.index_of(c);
    assert(is_as_close(a, supported[l], target));
    assert(is_as_close(c, supported[i], target));
}

/// Where the value at place `k` is supported and none before it is, it is
/// the first mutual value.
proof fn first_supported_is_first_mutual<T>(prefs: Seq<T>, supported: Seq<T>, k: int)
    requires
        0 <= k < prefs.len(),
        supported.contains(prefs[k]),
        forall|j: int| 0 <= j < k ==> !supported.contains(#[trigger] prefs[j]),
    ensures
        mutual(prefs, supported).len() > 0,
        mutual(prefs, supported)[0] == prefs[k],
{
    let pred = |v: T| supported.contains(v);
    let before = prefs.take(k);
    let hit = seq![prefs[k]];
    let after = prefs.skip(k + 1);
    assert(prefs =~= before + hit + after);
    Seq::filter_distributes_over_add(before + hit, after, pred);
    Seq::filter_distributes_over_add(before, hit, pred);
    mutual_is_empty_iff_disjoint(before, supported);
    assert(hit.filter(pred) =~= hit) by {
        reveal_with_fuel(Seq::filter, 2);
    }
}

/// The least place below `bound` at which `prefs` holds a supported value.
proof fn least_supported<T>(prefs: Seq<T>, supported: Seq<T>, bound: int) -> (k: int)
    requires
        0 <= bound <= prefs.len(),
        exists|i: int| 0 <= i < bound && supported.contains(#[trigger] prefs[i]),
    ensures
        0 <= k < bound,
        supported.contains(prefs[k]),
        forall|j: int| 0 <= j < k ==> !supported.contains(#[trigger] prefs[j]),
    decreases bound,
{
    let i = choose|i: int| 0 <= i < bound && supported.contains(#[trigger] prefs[i]);
    if exists|j: int| 0 <= j < i && supported.contains(#[trigger] prefs[j]) {
        least_supported(prefs, supported, i)
    } else {
        i
    }
}

/// Among the first `n` supported bitrates one is as close to `target` as
/// each of them; with all of them, it is the closest.
proof fn closest_exists(target: u16, supported: Seq<u16>, n: int) -> (best: u16)
    requires
        0 < n <= supported.len(),
    ensures
        supported.contains(best),
        forall|i: int| 0 <= i < n ==> is_as_close(best, #[trigger] supported[i], target),
        n == supported.len() ==> is_closest(best, target, supported) && closest(target, supported)
            == best,
    decreases n,
{
    let last = supported[n - 1];
    let best = if n == 1 {
        last
    } else {
        let before = closest_exists(target, supported, n - 1);
        if is_as_close(before, last, target) {
            before
        } else {
            last
        }
    };
    if n == supported.len() {
        closest_is_unique(best, best, target, supported);
    }
    best
}

} // verus!
