//! Values that arrive while the game already runs.
//!
//! The host starts each load and polls it; what a poll gave is handed in
//! here as a `Polled`, and the types of this file keep the state.

use vstd::prelude::*;
use crate::object::GameError;
use crate::object::ImageHandle;

verus! {

/// What one poll of a pending load gave.
#[derive(Debug)]
pub enum Polled<T> {
    /// The load has not finished.
    NotReady,
    /// The load has finished with this value.
    Ready(T),
    /// The load has failed.
    Failed,
}

enum AssetData<T> {
    Loading,
    Loaded(T),
}

/// A value that is either still loading or there for good.
pub struct Asset<T>(AssetData<T>);

/// The value after one more poll: a value that is there stays, whatever the
/// poll gave, and an absent one arrives only with `Ready`.
pub open spec fn advanced<T>(value: Option<T>, polled: Polled<T>) -> Option<T> {
    match value {
        Some(v) => Some(v),
        None => match polled {
            Polled::Ready(v) => Some(v),
            _ => None,
        },
    }
}

/// The value after the polls of `polls`, one after the other.
pub open spec fn advanced_through<T>(value: Option<T>, polls: Seq<Polled<T>>) -> Option<T>
    decreases polls.len(),
{
    if polls.len() == 0 {
        value
    } else {
        advanced_through(advanced(value, polls[0]), polls.skip(1))
    }
}

/// A value that is there is there for good: whatever is polled afterwards,
/// and however often, it stays the same value.
pub proof fn lemma_loaded_for_good<T>(value: T, polls: Seq<Polled<T>>)
    ensures
        advanced_through(Some(value), polls) == Some(value),
    decreases polls.len(),
{
    if polls.len() > 0 {
        lemma_loaded_for_good(value, polls.skip(1));
    }
}

/// While no poll has been `Ready`, the value is absent.
pub proof fn lemma_absent_until_ready<T>(polls: Seq<Polled<T>>)
    requires
        forall|k: int| 0 <= k < polls.len() ==> !(#[trigger] polls[k] is Ready),
    ensures
        advanced_through(None::<T>, polls) is None,
    decreases polls.len(),
{
    if polls.len() > 0 {
        assert(!(polls[0] is Ready));
        assert forall|k: int| 0 <= k < polls.skip(1).len() implies !(#[trigger] polls.skip(1)[k] is Ready) by {
            assert(polls.skip(1)[k] == polls[k + 1]);
        }
        lemma_absent_until_ready(polls.skip(1));
    }
}

impl<T> Asset<T> {
    /// The loaded value, or `None` while it is loading.
    pub closed spec fn value(&self) -> Option<T> {
        match self.0 {
            AssetData::Loading => None,
            AssetData::Loaded(v) => Some(v),
        }
    }

    /// An asset whose load has just begun.
    pub fn new() -> (asset: Asset<T>)
        ensures
            asset.value() is None,
    {
        Asset(AssetData::Loading)
    }

    /// Takes in `polled` and then runs `loaded` on the value if it is there.
    pub fn execute<F: FnOnce(&mut T) -> Result<(), GameError>>(
        &mut self,
        polled: Polled<T>,
        loaded: F,
    ) -> (done: Result<(), GameError>)
        requires
            forall|v: &mut T| advanced(old(self).value(), polled) == Some(*v) ==> loaded.requires((v,)),
        ensures
            old(self).value() is Some ==> final(self).value() is Some,
            old(self).value() is None && polled is Failed ==> done == Err::<(), GameError>(
                GameError::LoadFailed,
            ) && final(self).value() is None,
            !(old(self).value() is None && polled is Failed) ==> match advanced(
                old(self).value(),
                polled,
            ) {
                None => final(self).value() is None && done is Ok,
                Some(before) => exists|v: &mut T|
                    *v == before && final(self).value() == Some(*final(v))
                        && #[trigger] loaded.ensures((v,), done),
            },
    {
        let loading = || -> (r: Result<(), GameError>)
            ensures
                r is Ok,
            { Ok(()) };
        self.execute_or(polled, loaded, loading)
    }

    /// Takes in `polled`, what a poll of the pending load gave, and then
    /// runs `loaded` on the value if it is there, `loading` if it is not.
    ///
    /// A value that was there already stays and `polled` is not looked at.
    /// A failed load is reported, with neither function run; the asset is
    /// then still loading.
    pub fn execute_or<
        F: FnOnce(&mut T) -> Result<(), GameError>,
        G: FnOnce() -> Result<(), GameError>,
    >(&mut self, polled: Polled<T>, loaded: F, loading: G) -> (done: Result<(), GameError>)
        requires
            forall|v: &mut T| advanced(old(self).value(), polled) == Some(*v) ==> loaded.requires((v,)),
            advanced(old(self).value(), polled) is None && !(polled is Failed) ==> loading.requires(()),
        ensures
            old(self).value() is Some ==> final(self).value() is Some,
            old(self).value() is None && polled is Failed ==> done == Err::<(), GameError>(
                GameError::LoadFailed,
            ) && final(self).value() is None,
            !(old(self).value() is None && polled is Failed) ==> match advanced(
                old(self).value(),
                polled,
            ) {
                None => final(self).value() is None && loading.ensures((), done),
                Some(before) => exists|v: &mut T|
                    *v == before && final(self).value() == Some(*final(v))
                        && #[trigger] loaded.ensures((v,), done),
            },
    {
        if let AssetData::Loading = self.0 {
            match polled {
                Polled::Failed => {
                    return Err(GameError::LoadFailed);
                },
                Polled::Ready(value) => {
                    self.0 = AssetData::Loaded(value);
                },
                Polled::NotReady => {},
            }
        }
        match &mut self.0 {
            AssetData::Loading => loading(),
            AssetData::Loaded(data) => loaded(data),
        }
    }

    /// The value if it is there. Never waits.
    pub fn get(&self) -> (value: Option<T>) where T: Copy
        ensures
            value == self.value(),
    {
        match &self.0 {
            AssetData::Loading => None,
            AssetData::Loaded(data) => Some(*data),
        }
    }
}

/// What a poll of the load of the image called `name` gave.
#[derive(Debug)]
pub struct LoadEvent {
    pub name: String,
    pub polled: Polled<ImageHandle>,
}

/// The image called `name` if it is registered and there.
pub open spec fn image_of(
    images: Map<Seq<char>, Option<ImageHandle>>,
    name: Seq<char>,
) -> Option<ImageHandle> {
    if images.contains_key(name) {
        images[name]
    } else {
        None
    }
}

/// Whether every image of `images` is there.
pub open spec fn all_loaded(images: Map<Seq<char>, Option<ImageHandle>>) -> bool {
    forall|name: Seq<char>| images.contains_key(name) ==> (#[trigger] images[name]) is Some
}

/// Whether `event` reports the failure of a load that `images` still waits for.
pub open spec fn fails(images: Map<Seq<char>, Option<ImageHandle>>, event: LoadEvent) -> bool {
    images.contains_key(event.name@) && images[event.name@] is None && event.polled is Failed
}

/// `images` after `event`: an image that was awaited and is ready is there
/// from now on, and everything else is as before.
pub open spec fn delivered(
    images: Map<Seq<char>, Option<ImageHandle>>,
    event: LoadEvent,
) -> Map<Seq<char>, Option<ImageHandle>> {
    if images.contains_key(event.name@) {
        images.insert(event.name@, advanced(images[event.name@], event.polled))
    } else {
        images
    }
}

/// `images` after the events in turn, up to the first that fails; the flag
/// says whether none failed.
pub open spec fn delivered_all(
    images: Map<Seq<char>, Option<ImageHandle>>,
    events: Seq<LoadEvent>,
) -> (Map<Seq<char>, Option<ImageHandle>>, bool)
    decreases events.len(),
{
    if events.len() == 0 {
        (images, true)
    } else if fails(images, events[0]) {
        (images, false)
    } else {
        delivered_all(delivered(images, events[0]), events.skip(1))
    }
}

/// A loader without images has nothing to wait for: whatever the polls
/// gave, every image it knows of is there.
pub proof fn lemma_nothing_to_load(events: Seq<LoadEvent>)
    ensures
        all_loaded(Map::<Seq<char>, Option<ImageHandle>>::empty()),
        delivered_all(Map::<Seq<char>, Option<ImageHandle>>::empty(), events) == (
            Map::<Seq<char>, Option<ImageHandle>>::empty(),
            true,
        ),
    decreases events.len(),
{
    if events.len() > 0 {
        lemma_nothing_to_load(events.skip(1));
    }
}

/// Polls register nothing and forget nothing: the names stay the same, a
/// name that is not registered has no image whatever was polled, and an
/// image that is there stays there, the same as before.
pub proof fn lemma_delivery_keeps_names(
    images: Map<Seq<char>, Option<ImageHandle>>,
    events: Seq<LoadEvent>,
    name: Seq<char>,
)
    ensures
        delivered_all(images, events).0.contains_key(name) == images.contains_key(name),
        !images.contains_key(name) ==> image_of(delivered_all(images, events).0, name) is None,
        image_of(images, name) is Some ==> image_of(delivered_all(images, events).0, name)
            == image_of(images, name),
    decreases events.len(),
{
    if events.len() > 0 && !fails(images, events[0]) {
        lemma_delivery_keeps_names(delivered(images, events[0]), events.skip(1), name);
    }
}

/// Every image is there after the polls only if each one was there before
/// or got a `Ready` of its own.
pub proof fn lemma_loaded_one_by_one(
    images: Map<Seq<char>, Option<ImageHandle>>,
    events: Seq<LoadEvent>,
    name: Seq<char>,
)
    requires
        images.contains_key(name),
        images[name] is None,
        forall|k: int|
            0 <= k < events.len() ==> !((#[trigger] events[k]).name@ == name && events[k].polled is Ready),
    ensures
        delivered_all(images, events).0.contains_key(name),
        delivered_all(images, events).0[name] is None,
        !all_loaded(delivered_all(images, events).0),
    decreases events.len(),
{
    if events.len() > 0 && !fails(images, events[0]) {
        let next = delivered(images, events[0]);
        assert(!(events[0].name@ == name && events[0].polled is Ready));
        assert forall|k: int| 0 <= k < events.skip(1).len() implies !((#[trigger] events.skip(1)[k]).name@
            == name && events.skip(1)[k].polled is Ready) by {
            assert(events.skip(1)[k] == events[k + 1]);
        }
        lemma_loaded_one_by_one(next, events.skip(1), name);
    }
}

struct Entry {
    name: String,
    asset: Asset<ImageHandle>,
}

/// The images of the game by name, each loading or loaded.
pub struct AssetLoader {
    assets: Vec<Entry>,
    loaded: bool,
}

impl AssetLoader {
    /// No name is registered twice, and the flag is set only while every
    /// image is there.
    pub closed spec fn wf(&self) -> bool {
        &&& forall|i: int, j: int|
            0 <= i < j < self.assets@.len() ==> self.assets@[i].name@ != self.assets@[j].name@
        &&& self.loaded ==> forall|i: int|
            0 <= i < self.assets@.len() ==> self.assets@[i].asset.value() is Some
    }

    spec fn has(self, name: Seq<char>, i: int) -> bool {
        0 <= i < self.assets@.len() && self.assets@[i].name@ == name
    }

    /// The registered names, each with its image if that is there.
    pub closed spec fn view(&self) -> Map<Seq<char>, Option<ImageHandle>> {
        Map::new(
            |name: Seq<char>| exists|i: int| self.has(name, i),
            |name: Seq<char>| self.assets@[choose|i: int| self.has(name, i)].asset.value(),
        )
    }

    /// The remembered answer to "is every image there?".
    pub closed spec fn flag(&self) -> bool {
        self.loaded
    }

    proof fn lemma_entry(self, i: int)
        requires
            self.wf(),
            0 <= i < self.assets@.len(),
        ensures
            self@.contains_key(self.assets@[i].name@),
            self@[self.assets@[i].name@] == self.assets@[i].asset.value(),
    {
        let name = self.assets@[i].name@;
        assert(self.has(name, i));
        let j = choose|j: int| self.has(name, j);
        assert(j == i);
    }

    proof fn lemma_all_loaded(self)
        requires
            self.wf(),
        ensures
            all_loaded(self@) <==> forall|i: int|
                0 <= i < self.assets@.len() ==> self.assets@[i].asset.value() is Some,
    {
        if all_loaded(self@) {
            assert forall|i: int| 0 <= i < self.assets@.len() implies self.assets@[i].asset.value() is Some by {
                self.lemma_entry(i);
            }
        }
        if forall|i: int| 0 <= i < self.assets@.len() ==> self.assets@[i].asset.value() is Some {
            assert forall|name: Seq<char>| self@.contains_key(name) implies (#[trigger] self@[name]) is Some by {
                let i = choose|i: int| self.has(name, i);
                self.lemma_entry(i);
            }
        }
    }

    /// A loader without images.
    pub fn new() -> (loader: AssetLoader)
        ensures
            loader.wf(),
            loader@ == Map::<Seq<char>, Option<ImageHandle>>::empty(),
            !loader.flag(),
    {
        let loader = AssetLoader { assets: Vec::new(), loaded: false };
        assert(loader@ =~= Map::<Seq<char>, Option<ImageHandle>>::empty());
        loader
    }

    fn position(&self, name: &String) -> (found: Option<usize>)
        requires
            self.wf(),
        ensures
            match found {
                Some(i) => self.has(name@, i as int),
                None => !self@.contains_key(name@),
            },
    {
        let mut i: usize = 0;
        while i < self.assets.len()
            invariant
                i <= self.assets@.len(),
                forall|j: int| 0 <= j < i ==> self.assets@[j].name@ != name@,
            decreases self.assets@.len() - i,
        {
            if self.assets[i].name == *name {
                return Some(i);
            }
            i += 1;
        }
        None
    }

    /// Registers the image called `path` as loading. An image of that name
    /// that was registered before is forgotten.
    pub fn load(&mut self, path: String)
        requires
            old(self).wf(),
        ensures
            final(self).wf(),
            final(self)@ == old(self)@.insert(path@, None),
            !final(self).flag(),
    {
        let ghost name = path@;
        let ghost before = *self;
        let entry = Entry { name: path, asset: Asset::new() };
        match self.position(&entry.name) {
            Some(i) => {
                self.assets[i] = entry;
                proof {
                    assert forall|a: int, b: int| 0 <= a < b < self.assets@.len() implies self.assets@[a].name@
                        != self.assets@[b].name@ by {
                        assert(before.assets@[a].name@ != before.assets@[b].name@);
                    }
                }
            },
            None => {
                self.assets.push(entry);
                proof {
                    assert forall|a: int, b: int| 0 <= a < b < self.assets@.len() implies self.assets@[a].name@
                        != self.assets@[b].name@ by {
                        if b == before.assets@.len() {
                            assert(!before.has(name, a));
                        } else {
                            assert(before.assets@[a].name@ != before.assets@[b].name@);
                        }
                    }
                }
            },
        }
        self.loaded = false;
        proof {
            let after = *self;
            assert(after.wf());
            let at = choose|i: int| after.has(name, i);
            assert(after.has(name, at)) by {
                if before@.contains_key(name) {
                    let j = choose|j: int| before.has(name, j);
                    assert(after.has(name, j));
                } else {
                    assert(after.has(name, after.assets@.len() - 1));
                }
            }
            after.lemma_entry(at);
            assert forall|n: Seq<char>| #[trigger]
                after@.contains_key(n) == before@.insert(name, None).contains_key(n) by {
                if after@.contains_key(n) && n != name {
                    let i = choose|i: int| after.has(n, i);
                    assert(before.has(n, i));
                }
                if before@.contains_key(n) && n != name {
                    let i = choose|i: int| before.has(n, i);
                    assert(after.has(n, i));
                }
            }
            assert forall|n: Seq<char>| after@.contains_key(n) implies #[trigger] after@[n]
                == before@.insert(name, None)[n] by {
                if n != name {
                    let i = choose|i: int| after.has(n, i);
                    after.lemma_entry(i);
                    assert(before.has(n, i));
                    before.lemma_entry(i);
                }
            }
            assert(after@ =~= before@.insert(name, None));
        }
    }

    /// The names of the images that are still loading, each once: the loads
    /// that are worth a poll.
    pub fn pending(&self) -> (names: Vec<String>)
        requires
            self.wf(),
        ensures
            forall|name: Seq<char>|
                (exists|k: int| 0 <= k < names@.len() && (#[trigger] names@[k])@ == name) <==> (
                self@.contains_key(name) && self@[name] is None),
            forall|k: int, l: int| 0 <= k < l < names@.len() ==> names@[k]@ != names@[l]@,
    {
        let mut names: Vec<String> = Vec::new();
        let ghost mut from: Seq<int> = Seq::empty();
        let mut i: usize = 0;
        while i < self.assets.len()
            invariant
                self.wf(),
                i <= self.assets@.len(),
                from.len() == names@.len(),
                forall|k: int|
                    0 <= k < names@.len() ==> 0 <= #[trigger] from[k] < i && names@[k]@
                        == self.assets@[from[k]].name@ && self.assets@[from[k]].asset.value() is None,
                forall|k: int, l: int| 0 <= k < l < names@.len() ==> from[k] < from[l],
                forall|j: int|
                    0 <= j < i && self.assets@[j].asset.value() is None ==> exists|k: int|
                        0 <= k < names@.len() && #[trigger] from[k] == j,
            decreases self.assets@.len() - i,
        {
            if self.assets[i].asset.get().is_none() {
                names.push(self.assets[i].name.clone());
                proof {
                    let ghost prev = from;
                    from = from.push(i as int);
                    assert forall|j: int|
                        0 <= j < i + 1 && self.assets@[j].asset.value() is None implies exists|k: int|
                        0 <= k < names@.len() && #[trigger] from[k] == j by {
                        if j < i {
                            let k = choose|k: int| 0 <= k < prev.len() && #[trigger] prev[k] == j;
                            assert(from[k] == j);
                        } else {
                            assert(from[names@.len() - 1] == j);
                        }
                    }
                }
            }
            i += 1;
        }
        proof {
            assert forall|name: Seq<char>|
                (exists|k: int| 0 <= k < names@.len() && (#[trigger] names@[k])@ == name) <==> (
                self@.contains_key(name) && self@[name] is None) by {
                if exists|k: int| 0 <= k < names@.len() && (#[trigger] names@[k])@ == name {
                    let k = choose|k: int| 0 <= k < names@.len() && (#[trigger] names@[k])@ == name;
                    self.lemma_entry(from[k]);
                }
                if self@.contains_key(name) && self@[name] is None {
                    let j = choose|j: int| self.has(name, j);
                    self.lemma_entry(j);
                    let k = choose|k: int| 0 <= k < names@.len() && #[trigger] from[k] == j;
                    assert(names@[k]@ == name);
                }
            }
            assert forall|k: int, l: int| 0 <= k < l < names@.len() implies names@[k]@ != names@[l]@ by {
                assert(from[k] < from[l]);
                assert(self.assets@[from[k]].name@ != self.assets@[from[l]].name@);
            }
        }
        names
    }

    /// Takes in what this frame's polls gave, one event after the other.
    ///
    /// While the flag is set nothing is looked at and the answer is `true`.
    /// Otherwise an event for an image that is still loading makes it
    /// loaded if the poll was `Ready` and ends the pass with an error if
    /// the poll was `Failed`; any other event changes nothing. After the
    /// last event the flag is set anew: whether every image is there.
    pub fn update(&mut self, events: &Vec<LoadEvent>) -> (loaded: Result<bool, GameError>)
        requires
            old(self).wf(),
        ensures
            final(self).wf(),
            old(self).flag() ==> *final(self) == *old(self) && loaded == Ok::<bool, GameError>(
                true,
            ),
            !old(self).flag() ==> final(self)@ == delivered_all(old(self)@, events@).0,
            !old(self).flag() && delivered_all(old(self)@, events@).1 ==> loaded == Ok::<
                bool,
                GameError,
            >(all_loaded(final(self)@)) && final(self).flag() == all_loaded(final(self)@),
            !old(self).flag() && !delivered_all(old(self)@, events@).1 ==> loaded == Err::<
                bool,
                GameError,
            >(GameError::LoadFailed) && !final(self).flag(),
    {
        if self.loaded() {
            return Ok(true);
        }
        assert(events@.skip(0) =~= events@);
        let mut k: usize = 0;
        while k < events.len()
            invariant
                self.wf(),
                !self.loaded,
                !old(self).flag(),
                k <= events@.len(),
                delivered_all(old(self)@, events@) == delivered_all(self@, events@.skip(k as int)),
            decreases events@.len() - k,
        {
            let event = &events[k];
            let ghost before = *self;
            let ghost rest = events@.skip(k as int);
            proof {
                assert(rest[0] == events@[k as int]);
                assert(rest.skip(1) =~= events@.skip(k + 1));
            }
            match self.position(&event.name) {
                Some(i) => {
                    proof {
                        before.lemma_entry(i as int);
                    }
                    let polled = match &event.polled {
                        Polled::NotReady => Polled::NotReady,
                        Polled::Ready(image) => Polled::Ready(*image),
                        Polled::Failed => Polled::Failed,
                    };
                    let seen = |image: &mut ImageHandle| -> (r: Result<(), GameError>)
                        ensures
                            r is Ok,
                            *final(image) == *old(image),
                        { Ok(()) };
                    let done = self.assets[i].asset.execute(polled, seen);
                    proof {
                        let after = *self;
                        assert(after.assets@[i as int].asset.value() == advanced(
                            before.assets@[i as int].asset.value(),
                            event.polled,
                        ));
                        assert(after.wf()) by {
                            assert forall|a: int, b: int|
                                0 <= a < b < after.assets@.len() implies after.assets@[a].name@
                                != after.assets@[b].name@ by {
                                assert(before.assets@[a].name@ != before.assets@[b].name@);
                            }
                        }
                        assert forall|n: Seq<char>| #[trigger]
                            after@.contains_key(n) == before@.contains_key(n) by {
                            if after@.contains_key(n) {
                                let j = choose|j: int| after.has(n, j);
                                assert(before.has(n, j));
                            }
                            if before@.contains_key(n) {
                                let j = choose|j: int| before.has(n, j);
                                assert(after.has(n, j));
                            }
                        }
                        assert forall|n: Seq<char>| after@.contains_key(n) implies #[trigger] after@[n]
                            == delivered(before@, *event)[n] by {
                            let j = choose|j: int| after.has(n, j);
                            after.lemma_entry(j);
                            assert(before.has(n, j));
                            before.lemma_entry(j);
                        }
                        assert(after@ =~= delivered(before@, *event));
                    }
                    match done {
                        Err(error) => {
                            proof {
                                assert(fails(before@, *event));
                                assert(delivered(before@, *event) =~= before@);
                            }
                            return Err(error);
                        },
                        Ok(()) => {
                            assert(!fails(before@, *event));
                        },
                    }
                },
                None => {
                    assert(!fails(before@, *event));
                    assert(delivered(before@, *event) == before@);
                },
            }
            k += 1;
        }
        let mut loaded = true;
        let mut i: usize = 0;
        while i < self.assets.len()
            invariant
                i <= self.assets@.len(),
                loaded <==> forall|j: int| 0 <= j < i ==> self.assets@[j].asset.value() is Some,
            decreases self.assets@.len() - i,
        {
            if self.assets[i].asset.get().is_none() {
                loaded = false;
            }
            i += 1;
        }
        let ghost polled = *self;
        self.loaded = loaded;
        proof {
            assert(events@.skip(events@.len() as int).len() == 0);
            assert forall|n: Seq<char>| #[trigger] self@.contains_key(n) == polled@.contains_key(n) by {
                if self@.contains_key(n) {
                    let j = choose|j: int| self.has(n, j);
                    assert(polled.has(n, j));
                }
                if polled@.contains_key(n) {
                    let j = choose|j: int| polled.has(n, j);
                    assert(self.has(n, j));
                }
            }
            assert(self@ =~= polled@);
            self.lemma_all_loaded();
        }
        Ok(loaded)
    }

    /// Whether every image was there when `update` last looked. Once true,
    /// it stays true until another image is asked for.
    pub fn loaded(&self) -> (flag: bool)
        requires
            self.wf(),
        ensures
            flag == self.flag(),
            flag ==> all_loaded(self@),
    {
        proof {
            self.lemma_all_loaded();
        }
        self.loaded
    }

    /// The image called `path` if it is registered and there. Never waits.
    pub fn get(&self, path: &str) -> (image: Option<ImageHandle>)
        requires
            self.wf(),
        ensures
            image == image_of(self@, path@),
    {
        let name = path.to_owned();
        match self.position(&name) {
            Some(i) => {
                proof {
                    self.lemma_entry(i as int);
                }
                self.assets[i].asset.get()
            },
            None => None,
        }
    }
}

} // verus!
