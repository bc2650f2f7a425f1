//! The fixed alias table: a mapping from recognized command names to the
//! absolute paths of their companion executables, built once at startup from
//! the user's home directory and immutable thereafter.

use vstd::prelude::*;
use vstd::string::StringExecFns;

verus! {

/// First pair whose name equals `name`, scanning in order.
pub open spec fn spec_lookup(
    pairs: Seq<(Seq<char>, Seq<char>)>,
    name: Seq<char>,
) -> Option<Seq<char>>
    decreases pairs.len(),
{
    if pairs.len() == 0 {
        Option::None
    } else if pairs[0].0 == name {
        Option::Some(pairs[0].1)
    } else {
        spec_lookup(pairs.drop_first(), name)
    }
}

proof fn lemma_lookup_skip(pairs: Seq<(Seq<char>, Seq<char>)>, name: Seq<char>, i: int)
    requires
        0 <= i <= pairs.len(),
        forall|j: int| 0 <= j < i ==> pairs[j].0 != name,
    ensures
        spec_lookup(pairs, name) == spec_lookup(pairs.skip(i), name),
    decreases i,
{
    if i > 0 {
        lemma_lookup_skip(pairs.drop_first(), name, i - 1);
        assert(pairs.drop_first().skip(i - 1) =~= pairs.skip(i));
    } else {
        assert(pairs.skip(0) =~= pairs);
    }
}

/// A table of `(command name, executable path)` pairs.
pub struct AliasTable {
    pairs: Vec<(String, String)>,
}

impl View for AliasTable {
    type V = Seq<(Seq<char>, Seq<char>)>;

    closed spec fn view(&self) -> Seq<(Seq<char>, Seq<char>)> {
        self.pairs@.map_values(|p: (String, String)| (p.0@, p.1@))
    }
}

impl AliasTable {
    /// Command names are unique.
    pub open spec fn wf(self) -> bool {
        forall|i: int, j: int| 0 <= i < j < self@.len() ==> self@[i].0 != self@[j].0
    }

    /// How many aliases the table holds.
    pub fn count(&self) -> (n: usize)
        ensures
            n == self@.len(),
    {
        self.pairs.len()
    }

    /// The command name of the alias at `i`.
    pub fn name_at(&self, i: usize) -> (s: &String)
        requires
            i < self@.len(),
        ensures
            s@ == self@[i as int].0,
    {
        &self.pairs[i].0
    }

    /// The executable path mapped to `name`, if the table knows it.
    pub fn lookup(&self, name: &str) -> (r: Option<&String>)
        ensures
            match r {
                Option::Some(p) => spec_lookup(self@, name@) == Option::Some(p@),
                Option::None => spec_lookup(self@, name@) is None,
            },
    {
        let n = self.pairs.len();
        let mut i: usize = 0;
        while i < n
            invariant
                i <= n,
                n == self@.len(),
                forall|j: int| 0 <= j < i ==> self@[j].0 != name@,
            decreases n - i,
        {
            if crate::text::str_eq(self.pairs[i].0.as_str(), name) {
                proof {
                    lemma_lookup_skip(self@, name@, i as int);
                }
                return Option::Some(&self.pairs[i].1);
            }
            i += 1;
        }
        proof {
            lemma_lookup_skip(self@, name@, n as int);
        }
        Option::None
    }
}

/// The startup table: `ls`, `cat`, `echo` and `pwd`, each mapped to the
/// matching `exo_*` executable under `<home>/exo_bin`.
pub fn build_aliases(home: &str) -> (t: AliasTable)
    ensures
        t@ == seq![
            ("ls"@, home@ + "/exo_bin/exo_ls"@),
            ("cat"@, home@ + "/exo_bin/exo_cat"@),
            ("echo"@, home@ + "/exo_bin/exo_echo"@),
            ("pwd"@, home@ + "/exo_bin/exo_pwd"@),
        ],
        t.wf(),
{
    let mut pairs: Vec<(String, String)> = Vec::new();
    pairs.push((String::from_str("ls"), String::from_str(home).concat("/exo_bin/exo_ls")));
    pairs.push((String::from_str("cat"), String::from_str(home).concat("/exo_bin/exo_cat")));
    pairs.push((String::from_str("echo"), String::from_str(home).concat("/exo_bin/exo_echo")));
    pairs.push((String::from_str("pwd"), String::from_str(home).concat("/exo_bin/exo_pwd")));
    let t = AliasTable { pairs };
    proof {
        reveal_strlit("ls");
        reveal_strlit("cat");
        reveal_strlit("echo");
        reveal_strlit("pwd");
        assert(t@ =~= seq![
            ("ls"@, home@ + "/exo_bin/exo_ls"@),
            ("cat"@, home@ + "/exo_bin/exo_cat"@),
            ("echo"@, home@ + "/exo_bin/exo_echo"@),
            ("pwd"@, home@ + "/exo_bin/exo_pwd"@),
        ]);
        assert("ls"@.len() == 2);
        assert("cat"@.len() == 3);
        assert("echo"@.len() == 4);
        assert("pwd"@.len() == 3);
        assert("cat"@[0] == 'c' && "pwd"@[0] == 'p');
        assert forall|i: int, j: int| 0 <= i < j < t@.len() implies t@[i].0 != t@[j].0 by {
            assert(t@[0].0 == "ls"@);
            assert(t@[1].0 == "cat"@);
            assert(t@[2].0 == "echo"@);
            assert(t@[3].0 == "pwd"@);
        }
    }
    t
}

} // verus!
