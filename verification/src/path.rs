use vstd::prelude::*;
use vstd::string::*;

verus! {

/// A well-formed path component: non-empty and free of the separator.
pub open spec fn comp_ok(c: Seq<char>) -> bool {
    &&& c.len() > 0
    &&& forall|j: int| 0 <= j < c.len() ==> c[j] != '/'
}

/// Splitting, character by character: `cur` holds the run of non-separator
/// characters read so far; a component is emitted whenever a separator or
/// the end of the text is reached and the run is non-empty.
pub open spec fn split_acc(s: Seq<char>, cur: Seq<char>) -> Seq<Seq<char>>
    decreases s.len(),
{
    if s.len() == 0 {
        if cur.len() > 0 {
            seq![cur]
        } else {
            Seq::empty()
        }
    } else if s[0] == '/' {
        if cur.len() > 0 {
            seq![cur] + split_acc(s.drop_first(), Seq::empty())
        } else {
            split_acc(s.drop_first(), Seq::empty())
        }
    } else {
        split_acc(s.drop_first(), cur.push(s[0]))
    }
}

/// The non-empty `/`-separated segments of `s`, in left-to-right order.
pub open spec fn split_slash(s: Seq<char>) -> Seq<Seq<char>> {
    split_acc(s, Seq::empty())
}

/// The segments joined back into one text, with a single separator between
/// neighbours and none at either end.
pub open spec fn join_slash(parts: Seq<Seq<char>>) -> Seq<char>
    decreases parts.len(),
{
    if parts.len() == 0 {
        Seq::empty()
    } else if parts.len() == 1 {
        parts[0]
    } else {
        parts[0] + seq!['/'] + join_slash(parts.drop_first())
    }
}

/// The views of a sequence of strings.
pub open spec fn seq_views(v: Seq<String>) -> Seq<Seq<char>> {
    v.map_values(|s: String| s@)
}

/// Every segment produced by splitting is non-empty and free of separators,
/// provided the run carried in is free of them.
proof fn lemma_split_acc_ok(s: Seq<char>, cur: Seq<char>)
    requires
        forall|j: int| 0 <= j < cur.len() ==> cur[j] != '/',
    ensures
        forall|i: int|
            0 <= i < split_acc(s, cur).len() ==> comp_ok(#[trigger] split_acc(s, cur)[i]),
    decreases s.len(),
{
    if s.len() == 0 {
        if cur.len() > 0 {
            assert(split_acc(s, cur) == seq![cur]);
            assert(comp_ok(cur));
        }
    } else if s[0] == '/' {
        lemma_split_acc_ok(s.drop_first(), Seq::empty());
        if cur.len() > 0 {
            let r = split_acc(s, cur);
            let rest = split_acc(s.drop_first(), Seq::empty());
            assert(r == seq![cur] + rest);
            assert forall|i: int| 0 <= i < r.len() implies comp_ok(r[i]) by {
                if i == 0 {
                    assert(r[0] == cur);
                } else {
                    assert(r[i] == rest[i - 1]);
                }
            }
        }
    } else {
        assert(forall|j: int| 0 <= j < cur.push(s[0]).len() ==> cur.push(s[0])[j] != '/');
        lemma_split_acc_ok(s.drop_first(), cur.push(s[0]));
        assert(split_acc(s, cur) == split_acc(s.drop_first(), cur.push(s[0])));
    }
}

/// For any raw text, the split contains no empty component and none that
/// holds a separator.
pub proof fn lemma_split_slash_ok(s: Seq<char>)
    ensures
        forall|i: int|
            0 <= i < split_slash(s).len() ==> comp_ok(#[trigger] split_slash(s)[i]),
{
    lemma_split_acc_ok(s, Seq::empty());
}

/// Reading a run of non-separator characters only moves it into the
/// accumulator.
proof fn lemma_split_acc_run(w: Seq<char>, t: Seq<char>, cur: Seq<char>)
    requires
        forall|j: int| 0 <= j < w.len() ==> w[j] != '/',
    ensures
        split_acc(w + t, cur) == split_acc(t, cur + w),
    decreases w.len(),
{
    if w.len() == 0 {
        assert(w + t =~= t);
        assert(cur + w =~= cur);
    } else {
        assert((w + t)[0] == w[0]);
        assert((w + t).drop_first() =~= w.drop_first() + t);
        assert(cur.push(w[0]) + w.drop_first() =~= cur + w);
        lemma_split_acc_run(w.drop_first(), t, cur.push(w[0]));
    }
}

/// Splitting across a separator splits each side on its own.
proof fn lemma_split_acc_boundary(a: Seq<char>, b: Seq<char>, cur: Seq<char>)
    ensures
        split_acc(a + seq!['/'] + b, cur) == split_acc(a, cur) + split_acc(b, Seq::empty()),
    decreases a.len(),
{
    let s = a + seq!['/'] + b;
    if a.len() == 0 {
        assert(s =~= seq!['/'] + b);
        assert(s[0] == '/');
        assert(s.drop_first() =~= b);
        if cur.len() > 0 {
            assert(split_acc(s, cur) == seq![cur] + split_acc(b, Seq::empty()));
            assert(split_acc(a, cur) == seq![cur]);
        } else {
            assert(split_acc(s, cur) == split_acc(b, Seq::empty()));
            assert(split_acc(a, cur) == Seq::<Seq<char>>::empty());
            assert(Seq::<Seq<char>>::empty() + split_acc(b, Seq::empty()) =~= split_acc(
                b,
                Seq::empty(),
            ));
        }
    } else {
        assert(s[0] == a[0]);
        assert(s.drop_first() =~= a.drop_first() + seq!['/'] + b);
        if a[0] == '/' {
            lemma_split_acc_boundary(a.drop_first(), b, Seq::empty());
            if cur.len() > 0 {
                assert(split_acc(s, cur) == seq![cur] + split_acc(
                    a.drop_first() + seq!['/'] + b,
                    Seq::empty(),
                ));
                assert(split_acc(a, cur) == seq![cur] + split_acc(a.drop_first(), Seq::empty()));
                assert(seq![cur] + (split_acc(a.drop_first(), Seq::empty()) + split_acc(
                    b,
                    Seq::empty(),
                )) =~= (seq![cur] + split_acc(a.drop_first(), Seq::empty())) + split_acc(
                    b,
                    Seq::empty(),
                ));
            } else {
                assert(split_acc(s, cur) == split_acc(a.drop_first() + seq!['/'] + b, Seq::empty()));
                assert(split_acc(a, cur) == split_acc(a.drop_first(), Seq::empty()));
            }
        } else {
            lemma_split_acc_boundary(a.drop_first(), b, cur.push(a[0]));
            assert(split_acc(s, cur) == split_acc(a.drop_first() + seq!['/'] + b, cur.push(a[0])));
            assert(split_acc(a, cur) == split_acc(a.drop_first(), cur.push(a[0])));
        }
    }
}

/// A trailing separator changes nothing about the split.
proof fn lemma_split_acc_trailing(s: Seq<char>, cur: Seq<char>)
    ensures
        split_acc(s.push('/'), cur) == split_acc(s, cur),
    decreases s.len(),
{
    let sp = s.push('/');
    if s.len() == 0 {
        assert(sp[0] == '/');
        assert(sp.drop_first() =~= Seq::<char>::empty());
        if cur.len() > 0 {
            assert(split_acc(sp, cur) == seq![cur] + split_acc(
                Seq::<char>::empty(),
                Seq::<char>::empty(),
            ));
            assert(split_acc(Seq::<char>::empty(), Seq::<char>::empty())
                == Seq::<Seq<char>>::empty());
            assert(seq![cur] + Seq::<Seq<char>>::empty() =~= seq![cur]);
            assert(split_acc(s, cur) == seq![cur]);
        } else {
            assert(split_acc(sp, cur) == split_acc(Seq::<char>::empty(), Seq::<char>::empty()));
            assert(split_acc(Seq::<char>::empty(), Seq::<char>::empty())
                == Seq::<Seq<char>>::empty());
            assert(split_acc(s, cur) == Seq::<Seq<char>>::empty());
        }
    } else {
        assert(sp[0] == s[0]);
        assert(sp.drop_first() =~= s.drop_first().push('/'));
        if s[0] == '/' {
            lemma_split_acc_trailing(s.drop_first(), Seq::empty());
            if cur.len() > 0 {
                assert(split_acc(sp, cur) == seq![cur] + split_acc(
                    sp.drop_first(),
                    Seq::empty(),
                ));
                assert(split_acc(s, cur) == seq![cur] + split_acc(
                    s.drop_first(),
                    Seq::empty(),
                ));
            } else {
                assert(split_acc(sp, cur) == split_acc(sp.drop_first(), Seq::empty()));
                assert(split_acc(s, cur) == split_acc(s.drop_first(), Seq::empty()));
            }
        } else {
            lemma_split_acc_trailing(s.drop_first(), cur.push(s[0]));
            assert(split_acc(sp, cur) == split_acc(sp.drop_first(), cur.push(s[0])));
            assert(split_acc(s, cur) == split_acc(s.drop_first(), cur.push(s[0])));
        }
    }
}

/// Splitting undoes joining, for well-formed components.
pub proof fn lemma_split_of_join(parts: Seq<Seq<char>>)
    requires
        forall|i: int| 0 <= i < parts.len() ==> comp_ok(#[trigger] parts[i]),
    ensures
        split_slash(join_slash(parts)) == parts,
    decreases parts.len(),
{
    if parts.len() == 0 {
    } else if parts.len() == 1 {
        let w = parts[0];
        assert(w + Seq::<char>::empty() =~= w);
        lemma_split_acc_run(w, Seq::empty(), Seq::empty());
        assert(Seq::<char>::empty() + w =~= w);
        assert(split_slash(w) =~= seq![w]);
        assert(parts =~= seq![w]);
    } else {
        let w = parts[0];
        let rest = join_slash(parts.drop_first());
        assert(join_slash(parts) == w + seq!['/'] + rest);
        assert(w + seq!['/'] + rest =~= w + (seq!['/'] + rest));
        lemma_split_acc_run(w, seq!['/'] + rest, Seq::empty());
        assert(Seq::<char>::empty() + w =~= w);
        let u = seq!['/'] + rest;
        assert(u[0] == '/');
        assert(u.drop_first() =~= rest);
        lemma_split_of_join(parts.drop_first());
        assert(split_slash(join_slash(parts)) =~= seq![w] + parts.drop_first());
        assert(seq![w] + parts.drop_first() =~= parts);
    }
}

/// Appending one more segment extends the joined text by a separator and the
/// segment.
proof fn lemma_join_snoc(parts: Seq<Seq<char>>, x: Seq<char>)
    requires
        parts.len() >= 1,
    ensures
        join_slash(parts.push(x)) == join_slash(parts) + seq!['/'] + x,
    decreases parts.len(),
{
    if parts.len() == 1 {
        assert(parts.push(x)[0] == parts[0]);
        assert(parts.push(x).drop_first() =~= seq![x]);
        assert(join_slash(seq![x]) == x);
        assert(join_slash(parts.push(x)) == parts[0] + seq!['/'] + x);
    } else {
        assert(parts.push(x)[0] == parts[0]);
        assert(parts.push(x).drop_first() =~= parts.drop_first().push(x));
        lemma_join_snoc(parts.drop_first(), x);
        assert(parts[0] + seq!['/'] + (join_slash(parts.drop_first()) + seq!['/'] + x) =~= (
        parts[0] + seq!['/'] + join_slash(parts.drop_first())) + seq!['/'] + x);
    }
}

/// Joins the strings with a single separator between neighbours.
fn join_components(v: &Vec<String>) -> (r: String)
    ensures
        r@ == join_slash(seq_views(v@)),
{
    let mut out = String::new();
    let mut i: usize = 0;
    proof {
        reveal_strlit("/");
        assert("/"@ =~= seq!['/']);
    }
    while i < v.len()
        invariant
            i <= v.len(),
            "/"@ == seq!['/'],
            out@ == join_slash(seq_views(v@.subrange(0, i as int))),
        decreases v.len() - i,
    {
        let ghost pre = seq_views(v@.subrange(0, i as int));
        if i > 0 {
            out.append("/");
        }
        out.append(v[i].as_str());
        proof {
            assert(seq_views(v@.subrange(0, i as int + 1)) =~= pre.push(v@[i as int]@));
            if i == 0 {
                assert(pre =~= Seq::<Seq<char>>::empty());
                assert(seq_views(v@.subrange(0, 1)) =~= seq![v@[0]@]);
                assert(join_slash(seq![v@[0]@]) == v@[0]@);
                assert(out@ =~= v@[0]@);
            } else {
                lemma_join_snoc(pre, v@[i as int]@);
                assert(out@ =~= join_slash(pre) + seq!['/'] + v@[i as int]@);
            }
        }
        i = i + 1;
    }
    proof {
        assert(v@.subrange(0, v@.len() as int) =~= v@);
    }
    out
}

/// A virtual path: the raw text as given, split into its normalized sequence
/// of non-empty components.
#[derive(Debug)]
pub struct Path {
    path: String,
    components: Vec<String>,
}

impl PartialEq for Path {
    /// Two paths are equal exactly when their component sequences are;
    /// the raw texts they were split from play no part.
    fn eq(&self, other: &Self) -> (r: bool) {
        if self.components.len() != other.components.len() {
            return false;
        }
        let mut i: usize = 0;
        while i < self.components.len()
            invariant
                i <= self.components@.len(),
                self.components@.len() == other.components@.len(),
                forall|t: int| 0 <= t < i ==> self.components@[t]@ == other.components@[t]@,
            decreases self.components@.len() - i,
        {
            if self.components[i] != other.components[i] {
                proof {
                    assert(self.comps()[i as int] != other.comps()[i as int]);
                }
                return false;
            }
            i = i + 1;
        }
        proof {
            assert(self.comps() =~= other.comps());
        }
        true
    }
}

impl vstd::std_specs::cmp::PartialEqSpecImpl for Path {
    open spec fn obeys_eq_spec() -> bool {
        true
    }

    open spec fn eq_spec(&self, other: &Path) -> bool {
        self.comps() == other.comps()
    }
}

impl Clone for Path {
    /// A copy with the same raw text and the same components.
    fn clone(&self) -> (r: Self)
        ensures
            r.raw() == self.raw(),
            r.comps() == self.comps(),
            r.wf() == self.wf(),
    {
        let components = self.components.clone();
        proof {
            assert(components@ =~= self.components@);
        }
        Self { path: self.path.clone(), components }
    }
}

impl Path {
    /// The raw text of the path.
    pub closed spec fn raw(self) -> Seq<char> {
        self.path@
    }

    /// The component sequence, each component as a sequence of characters.
    pub closed spec fn comps(self) -> Seq<Seq<char>> {
        seq_views(self.components@)
    }

    /// The components are exactly the split of the raw text.
    pub closed spec fn wf(self) -> bool {
        self.comps() == split_slash(self.raw())
    }

    /// Splits on the separator, keeping the non-empty segments in order.
    pub fn new(path: &str) -> (r: Self)
        ensures
            r.raw() == path@,
            r.comps() == split_slash(path@),
            r.wf(),
    {
        let n = path.unicode_len();
        let mut components: Vec<String> = Vec::new();
        let mut cur = String::new();
        let mut i: usize = 0;
        proof {
            assert(path@.skip(0) =~= path@);
            assert(seq_views(components@) =~= Seq::empty());
            assert(Seq::empty() + split_acc(path@, cur@) =~= split_acc(path@, cur@));
        }
        while i < n
            invariant
                i <= n,
                n == path@.len(),
                seq_views(components@) + split_acc(path@.skip(i as int), cur@)
                    == split_slash(path@),
            decreases n - i,
        {
            let ghost pre_comps = components@;
            let ghost pre_cur = cur@;
            let ghost tail = path@.skip(i as int);
            let ghost tail1 = path@.skip(i as int + 1);
            proof {
                assert(tail.len() > 0);
                assert(tail[0] == path@[i as int]);
                assert(tail.drop_first() =~= tail1);
            }
            let c = path.get_char(i);
            if c == '/' {
                if !cur.as_str().is_empty() {
                    components.push(cur);
                    cur = String::new();
                    proof {
                        assert(split_acc(tail, pre_cur) == seq![pre_cur] + split_acc(
                            tail1,
                            Seq::empty(),
                        ));
                        assert(seq_views(components@) =~= seq_views(pre_comps).push(pre_cur));
                        assert(seq_views(components@) + split_acc(tail1, cur@) =~= seq_views(
                            pre_comps,
                        ) + split_acc(tail, pre_cur));
                    }
                } else {
                    proof {
                        assert(pre_cur =~= Seq::<char>::empty());
                        assert(split_acc(tail, pre_cur) == split_acc(tail1, Seq::empty()));
                    }
                }
            } else {
                let piece = path.substring_char(i, i + 1);
                proof {
                    assert(piece@ =~= seq![path@[i as int]]);
                }
                cur.append(piece);
                proof {
                    assert(cur@ =~= pre_cur.push(path@[i as int]));
                    assert(split_acc(tail, pre_cur) == split_acc(tail1, pre_cur.push(tail[0])));
                }
            }
            i = i + 1;
        }
        proof {
            assert(path@.skip(n as int) =~= Seq::<char>::empty());
        }
        if !cur.as_str().is_empty() {
            let ghost pre_comps = components@;
            let ghost pre_cur = cur@;
            components.push(cur);
            proof {
                assert(seq_views(components@) =~= seq_views(pre_comps).push(pre_cur));
                assert(seq_views(pre_comps).push(pre_cur)
                    =~= seq_views(pre_comps) + seq![pre_cur]);
            }
        } else {
            proof {
                assert(seq_views(components@) + Seq::<Seq<char>>::empty()
                    =~= seq_views(components@));
            }
        }
        let r = Self { path: String::from_str(path), components };
        r
    }

    /// A copy of the component list.
    pub fn components(&self) -> (r: Vec<String>)
        ensures
            seq_views(r@) == self.comps(),
    {
        let r = self.components.clone();
        proof {
            assert(r@ =~= self.components@);
            assert(seq_views(r@) =~= self.comps());
        }
        r
    }

    /// The last component, if any.
    pub fn name(&self) -> (r: Option<&str>)
        ensures
            match r {
                Some(s) => self.comps().len() > 0 && s@ == self.comps().last(),
                None => self.comps().len() == 0,
            },
    {
        if self.components.len() > 0 {
            let s: &String = &self.components[self.components.len() - 1];
            Some(s.as_str())
        } else {
            None
        }
    }

    /// A copy of the raw text.
    pub fn path(&self) -> (r: String)
        ensures
            r@ == self.raw(),
    {
        self.path.clone()
    }

    /// The path with the last component removed; the parent of a path with a
    /// single component is the root path, with no components at all.
    pub fn parent(&self) -> (r: Self)
        requires
            self.wf(),
        ensures
            r.comps() == if self.comps().len() > 0 {
                self.comps().drop_last()
            } else {
                self.comps()
            },
            r.raw() == join_slash(r.comps()),
            r.wf(),
    {
        let mut components = self.components.clone();
        proof {
            assert(components@ =~= self.components@);
        }
        let ghost pre = seq_views(components@);
        let _dropped = components.pop();
        proof {
            if pre.len() > 0 {
                assert(seq_views(components@) =~= pre.drop_last());
            } else {
                assert(seq_views(components@) =~= pre);
            }
            lemma_split_slash_ok(self.raw());
            assert(forall|i: int|
                0 <= i < seq_views(components@).len() ==> comp_ok(
                    #[trigger] seq_views(components@)[i],
                ));
            lemma_split_of_join(seq_views(components@));
        }
        let path = join_components(&components);
        Self { path, components }
    }

    /// The path of `self` with further text appended to the raw form, split
    /// afresh.
    pub fn join(&self, path: &str) -> (r: Self)
        ensures
            r.raw() == self.raw() + path@,
            r.comps() == split_slash(self.raw() + path@),
            r.wf(),
    {
        let mut combined = self.path.clone();
        combined.append(path);
        Path::new(combined.as_str())
    }

    /// Appends the given text's components after the existing ones: the text
    /// goes onto the raw form behind a separator (added when one is not
    /// already there) and with a trailing one, and the whole is split afresh.
    pub fn push(&mut self, path: &str)
        requires
            old(self).wf(),
        ensures
            final(self).comps() == old(self).comps() + split_slash(path@),
            final(self).raw() == if old(self).raw().len() > 0 && old(self).raw().last() != '/' {
                old(self).raw() + seq!['/'] + path@ + seq!['/']
            } else {
                old(self).raw() + path@ + seq!['/']
            },
            final(self).wf(),
    {
        proof {
            reveal_strlit("/");
            assert("/"@ =~= seq!['/']);
        }
        let ghost old_raw = self.path@;
        let n = self.path.as_str().unicode_len();
        let needs_sep = if n > 0 {
            self.path.as_str().get_char(n - 1) != '/'
        } else {
            false
        };
        if needs_sep {
            self.path.append("/");
        }
        self.path.append(path);
        self.path.append("/");
        proof {
            let tail = path@ + seq!['/'];
            assert(tail =~= path@.push('/'));
            lemma_split_acc_trailing(path@, Seq::empty());
            if needs_sep {
                assert(self.path@ =~= old_raw + seq!['/'] + tail);
                lemma_split_acc_boundary(old_raw, tail, Seq::empty());
            } else if old_raw.len() > 0 {
                let front = old_raw.drop_last();
                assert(old_raw =~= front.push('/'));
                assert(self.path@ =~= front + seq!['/'] + tail);
                lemma_split_acc_boundary(front, tail, Seq::empty());
                lemma_split_acc_trailing(front, Seq::empty());
            } else {
                assert(self.path@ =~= tail);
                assert(old_raw =~= Seq::<char>::empty());
                assert(split_slash(old_raw) + split_slash(path@) =~= split_slash(path@));
            }
            assert(split_slash(self.path@) == split_slash(old_raw) + split_slash(path@));
        }
        let p = Path::new(self.path.as_str());
        self.components = p.components;
    }

    /// Removes the last component; the raw text becomes the remaining
    /// components between separators, or the bare separator when none are
    /// left.
    pub fn pop(&mut self)
        requires
            old(self).wf(),
        ensures
            final(self).comps() == if old(self).comps().len() > 0 {
                old(self).comps().drop_last()
            } else {
                old(self).comps()
            },
            final(self).raw() == if final(self).comps().len() > 0 {
                seq!['/'] + join_slash(final(self).comps()) + seq!['/']
            } else {
                seq!['/']
            },
            final(self).wf(),
    {
        proof {
            reveal_strlit("/");
            assert("/"@ =~= seq!['/']);
        }
        let ghost pre = seq_views(self.components@);
        let _dropped = self.components.pop();
        proof {
            if pre.len() > 0 {
                assert(seq_views(self.components@) =~= pre.drop_last());
            } else {
                assert(seq_views(self.components@) =~= pre);
            }
            lemma_split_slash_ok(old(self).raw());
            assert(forall|i: int|
                0 <= i < seq_views(self.components@).len() ==> comp_ok(
                    #[trigger] seq_views(self.components@)[i],
                ));
        }
        let ghost parts = seq_views(self.components@);
        if self.components.len() > 0 {
            let j = join_components(&self.components);
            let mut s = String::from_str("/");
            s.append(j.as_str());
            s.append("/");
            proof {
                lemma_split_of_join(parts);
                let t = seq!['/'] + join_slash(parts);
                assert(s@ =~= t.push('/'));
                lemma_split_acc_trailing(t, Seq::empty());
                assert(t[0] == '/');
                assert(t.drop_first() =~= join_slash(parts));
                assert(split_acc(t, Seq::empty()) == split_acc(t.drop_first(), Seq::empty()));
                assert(split_slash(s@) == parts);
            }
            self.path = s;
        } else {
            let s = String::from_str("/");
            proof {
                assert(s@ =~= seq!['/']);
                assert(s@[0] == '/');
                assert(s@.drop_first() =~= Seq::<char>::empty());
                assert(split_acc(s@, Seq::empty()) == split_acc(
                    Seq::<char>::empty(),
                    Seq::<char>::empty(),
                ));
                assert(split_slash(s@) =~= Seq::<Seq<char>>::empty());
                assert(parts =~= Seq::<Seq<char>>::empty());
            }
            self.path = s;
        }
    }
}

impl Default for Path {
    /// The root path: the bare separator, with no components.
    fn default() -> (r: Self)
        ensures
            r.raw() == seq!['/'],
            r.comps() == Seq::<Seq<char>>::empty(),
            r.wf(),
    {
        proof {
            reveal_strlit("/");
            assert("/"@ =~= seq!['/']);
        }
        let path = String::from_str("/");
        let components: Vec<String> = Vec::new();
        proof {
            assert(seq_views(components@) =~= Seq::<Seq<char>>::empty());
            assert(path@[0] == '/');
            assert(path@.drop_first() =~= Seq::<char>::empty());
            assert(split_acc(path@, Seq::empty()) == split_acc(
                Seq::<char>::empty(),
                Seq::<char>::empty(),
            ));
            assert(split_slash(path@) =~= Seq::<Seq<char>>::empty());
        }
        Self { path, components }
    }
}

} // verus!
