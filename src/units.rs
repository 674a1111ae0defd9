use crate::texture::TextureId;
use vstd::prelude::*;

verus! {

/// The distinct textures of `s`, in the order in which each first occurs.
pub open spec fn first_seen(s: Seq<TextureId>) -> Seq<TextureId>
    decreases s.len(),
{
    if s.len() == 0 {
        Seq::empty()
    } else {
        let p = first_seen(s.drop_last());
        if p.contains(s.last()) {
            p
        } else {
            p.push(s.last())
        }
    }
}

/// `first_seen(s)` holds each texture of `s` once, and nothing else.
pub proof fn lemma_first_seen(s: Seq<TextureId>)
    ensures
        first_seen(s).no_duplicates(),
        forall|t: TextureId| first_seen(s).contains(t) <==> s.contains(t),
        first_seen(s).len() <= s.len(),
    decreases s.len(),
{
    if s.len() > 0 {
        let d = s.drop_last();
        lemma_first_seen(d);
        assert forall|t: TextureId| s.contains(t) <==> (d.contains(t) || t == s.last()) by {
            if s.contains(t) {
                let k = choose|k: int| 0 <= k < s.len() && s[k] == t;
                if k < s.len() - 1 {
                    assert(d[k] == t);
                }
            }
            if d.contains(t) {
                let k = choose|k: int| 0 <= k < d.len() && d[k] == t;
                assert(s[k] == t);
            }
            if t == s.last() {
                assert(s[s.len() - 1] == t);
            }
        }
        let p = first_seen(d);
        if !p.contains(s.last()) {
            assert forall|t: TextureId| p.push(s.last()).contains(t) <==> (p.contains(t) || t
                == s.last()) by {
                if p.push(s.last()).contains(t) {
                    let k = choose|k: int| 0 <= k < p.len() + 1 && p.push(s.last())[k] == t;
                    if k < p.len() {
                        assert(p[k] == t);
                    }
                }
                if p.contains(t) {
                    let k = choose|k: int| 0 <= k < p.len() && p[k] == t;
                    assert(p.push(s.last())[k] == t);
                }
                if t == s.last() {
                    assert(p.push(s.last())[p.len() as int] == t);
                }
            }
        }
    }
}

/// Taking more of a sequence never makes fewer distinct textures.
pub proof fn lemma_first_seen_prefix_len(s: Seq<TextureId>, i: int)
    requires
        0 <= i <= s.len(),
    ensures
        first_seen(s.take(i)).len() <= first_seen(s).len(),
    decreases s.len(),
{
    if i < s.len() {
        let d = s.drop_last();
        assert(s.take(i) =~= d.take(i));
        lemma_first_seen_prefix_len(d, i);
    } else {
        assert(s.take(i) =~= s);
    }
}

/// A batch is bound with one texture unit per distinct texture: the number
/// of textures that `first_seen` keeps is the number of distinct textures of
/// the batch, whatever the number of sprites that use each.
pub proof fn lemma_first_seen_len(s: Seq<TextureId>)
    ensures
        first_seen(s).len() == s.to_set().len(),
{
    lemma_first_seen(s);
    first_seen(s).unique_seq_to_set();
    assert(first_seen(s).to_set() =~= s.to_set());
}

/// Sprites of one draw call need more textures than there are texture units.
#[derive(PartialEq, Eq, Clone, Copy, Debug, Structural)]
pub struct UnitBudgetExceeded {
    /// The number of texture units that the backend offers.
    pub max_units: u32,
}

/// The textures bound for one draw call: unit `i` holds the `i`-th texture.
pub struct TextureUnits {
    bound: Vec<TextureId>,
}

impl View for TextureUnits {
    type V = Seq<TextureId>;

    closed spec fn view(&self) -> Seq<TextureId> {
        self.bound@
    }
}

impl TextureUnits {
    /// No texture bound.
    pub fn new() -> (r: Self)
        ensures
            r@ == Seq::<TextureId>::empty(),
    {
        TextureUnits { bound: Vec::new() }
    }

    /// The number of units in use.
    pub fn len(&self) -> (r: usize)
        ensures
            r == self@.len(),
    {
        self.bound.len()
    }

    /// The textures bound, by unit.
    pub fn to_vec(&self) -> (r: Vec<TextureId>)
        ensures
            r@ == self@,
    {
        let mut r: Vec<TextureId> = Vec::new();
        let mut k: usize = 0;
        while k < self.bound.len()
            invariant
                k <= self.bound@.len(),
                r@ == self.bound@.take(k as int),
            decreases self.bound@.len() - k,
        {
            proof {
                assert(self.bound@.take(k + 1) =~= self.bound@.take(k as int).push(self.bound@[k as int]));
            }
            r.push(self.bound[k]);
            k += 1;
        }
        proof {
            assert(self.bound@.take(self.bound@.len() as int) =~= self.bound@);
        }
        r
    }

    /// The texture bound to `unit`, if that unit is in use.
    pub fn texture_of(&self, unit: u32) -> (r: Option<TextureId>)
        ensures
            r == (if unit < self@.len() {
                Some(self@[unit as int])
            } else {
                None
            }),
    {
        if (unit as usize) < self.bound.len() {
            Some(self.bound[unit as usize])
        } else {
            None
        }
    }

    /// The first unit that holds `texture`, if any.
    pub fn unit_of(&self, texture: TextureId) -> (r: Option<u32>)
        requires
            self@.len() <= u32::MAX,
        ensures
            match r {
                Some(u) => u < self@.len() && self@[u as int] == texture && forall|k: int|
                    0 <= k < u ==> self@[k] != texture,
                None => !self@.contains(texture),
            },
    {
        let mut k: usize = 0;
        while k < self.bound.len()
            invariant
                k <= self.bound@.len() <= u32::MAX,
                forall|j: int| 0 <= j < k ==> self.bound@[j] != texture,
            decreases self.bound@.len() - k,
        {
            if self.bound[k] == texture {
                return Some(k as u32);
            }
            k += 1;
        }
        None
    }

    /// Gives a texture unit to each of `textures`, in order: a texture seen
    /// before in the batch keeps its unit, a new one takes the next free
    /// unit. Each texture is bound once, whatever the number of sprites that
    /// use it. Fails, leaving no unit in use, when the batch holds more
    /// distinct textures than `max_units`.
    pub fn assign(&mut self, textures: &[TextureId], max_units: u32) -> (r: Result<
        Vec<u32>,
        UnitBudgetExceeded,
    >)
        ensures
            r is Ok <==> first_seen(textures@).len() <= max_units,
            match r {
                Ok(units) => {
                    &&& final(self)@ == first_seen(textures@)
                    &&& units@.len() == textures@.len()
                    &&& forall|i: int|
                        0 <= i < textures@.len() ==> #[trigger] units@[i] < final(self)@.len()
                            && final(self)@[units@[i] as int] == textures@[i]
                },
                Err(e) => e.max_units == max_units && final(self)@ == Seq::<TextureId>::empty(),
            },
    {
        self.bound.clear();
        let mut units: Vec<u32> = Vec::new();
        let mut i: usize = 0;
        proof {
            assert(textures@.take(0) =~= Seq::<TextureId>::empty());
        }
        while i < textures.len()
            invariant
                i <= textures@.len(),
                self@ == first_seen(textures@.take(i as int)),
                self@.len() <= max_units,
                units@.len() == i,
                forall|j: int|
                    0 <= j < i ==> #[trigger] units@[j] < self@.len() && self@[units@[j] as int]
                        == textures@[j],
            decreases textures@.len() - i,
        {
            let t = textures[i];
            let ghost before = self@;
            let ghost units_before = units@;
            proof {
                assert(textures@.take(i + 1).drop_last() =~= textures@.take(i as int));
                assert(textures@.take(i + 1).last() == t);
                lemma_first_seen(textures@.take(i as int));
            }
            match self.unit_of(t) {
                Some(u) => {
                    assert(self@.contains(t));
                    units.push(u);
                },
                None => {
                    if self.bound.len() == max_units as usize {
                        proof {
                            lemma_first_seen_prefix_len(textures@, i + 1);
                        }
                        self.bound.clear();
                        return Err(UnitBudgetExceeded { max_units });
                    }
                    let u = self.bound.len() as u32;
                    self.bound.push(t);
                    units.push(u);
                },
            }
            proof {
                assert(before.len() <= self@.len());
                assert(forall|k: int| 0 <= k < before.len() ==> self@[k] == before[k]);
                assert forall|j: int| 0 <= j < i + 1 implies #[trigger] units@[j] < self@.len()
                    && self@[units@[j] as int] == textures@[j] by {
                    if j < i {
                        assert(units@[j] == units_before[j]);
                    }
                }
            }
            i += 1;
        }
        proof {
            assert(textures@.take(textures@.len() as int) =~= textures@);
        }
        Ok(units)
    }
}

} // verus!
