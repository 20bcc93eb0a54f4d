//! Configuration options as plain key/value pairs. Reading the file itself
//! is the caller's business; the lookup and its default live here.

use vstd::prelude::*;

verus! {

/// The first value stored under a key, or the empty text when the key is
/// absent.
pub open spec fn spec_cfg_get(opts: Seq<(String, String)>, key: Seq<char>) -> Seq<char>
    decreases opts.len(),
{
    if opts.len() == 0 {
        Seq::empty()
    } else if opts[0].0@ == key {
        opts[0].1@
    } else {
        spec_cfg_get(opts.drop_first(), key)
    }
}

/// A parsed configuration: option names and their values.
pub struct Cfg {
    opts: Vec<(String, String)>,
}

impl Cfg {
    pub closed spec fn spec_opts(&self) -> Seq<(String, String)> {
        self.opts@
    }

    /// Wrap options already read from the configuration file.
    pub fn new(opts: Vec<(String, String)>) -> (c: Cfg)
        ensures
            c.spec_opts() == opts@,
    {
        Cfg { opts }
    }

    /// This defaults to an empty string if no value is found under the key.
    pub fn get(&self, key_name: &str) -> (v: String)
        ensures
            v@ == spec_cfg_get(self.spec_opts(), key_name@),
    {
        let wanted: String = key_name.to_owned();
        let mut i: usize = 0;
        proof {
            assert(self.opts@.skip(0) =~= self.opts@);
        }
        while i < self.opts.len()
            invariant
                i <= self.opts@.len(),
                wanted@ == key_name@,
                spec_cfg_get(self.opts@, key_name@) == spec_cfg_get(
                    self.opts@.skip(i as int),
                    key_name@,
                ),
            decreases self.opts@.len() - i,
        {
            proof {
                assert(self.opts@.skip(i as int)[0] == self.opts@[i as int]);
                assert(self.opts@.skip(i as int).drop_first() =~= self.opts@.skip(i + 1));
            }
            if self.opts[i].0 == wanted {
                return self.opts[i].1.clone();
            }
            i = i + 1;
        }
        proof {
            assert(self.opts@.skip(self.opts@.len() as int) =~= Seq::<(String, String)>::empty());
        }
        String::new()
    }
}

} // verus!
