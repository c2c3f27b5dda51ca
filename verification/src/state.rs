//! The policy store: everything the router consults besides the node
//! directory.  One value of this type sits behind the store's lock;
//! reloading a rule file replaces the matching field.

use vstd::prelude::*;

use crate::alias::AliasTable;
use crate::policy::HostRule;
use crate::policy::HostRuleV;
use crate::policy::Rule;
use crate::policy::RuleV;
use crate::subs::SubTable;

verus! {

/// The policy store: command allow/deny rules, the alias table, the
/// subscription table, shutdown permissions, reconnect permissions
/// and the global host list.
pub struct StarsData {
    pub cmdallow: Vec<Rule>,
    pub cmddeny: Vec<Rule>,
    pub aliases: AliasTable,
    pub subs: SubTable,
    pub shutallow: Vec<String>,
    pub reconnecttable: Vec<HostRule>,
    pub hostlist: Vec<HostRule>,
}

/// The mathematical image of the policy store.
pub struct SdV {
    pub cmdallow: Seq<RuleV>,
    pub cmddeny: Seq<RuleV>,
    pub aliases: Seq<(Seq<char>, Seq<char>)>,
    pub subs: Seq<(Seq<char>, Seq<Seq<char>>)>,
    pub shutallow: Seq<Seq<char>>,
    pub reconnecttable: Seq<HostRuleV>,
    pub hostlist: Seq<HostRuleV>,
}

impl View for StarsData {
    type V = SdV;

    open spec fn view(&self) -> SdV {
        SdV {
            cmdallow: self.cmdallow.deep_view(),
            cmddeny: self.cmddeny.deep_view(),
            aliases: self.aliases@,
            subs: self.subs@,
            shutallow: self.shutallow.deep_view(),
            reconnecttable: self.reconnecttable.deep_view(),
            hostlist: self.hostlist.deep_view(),
        }
    }
}

impl StarsData {
    /// Well-formedness of the store: the alias table has no chains and
    /// the subscription table no duplicate entries.
    pub open spec fn wf(&self) -> bool {
        self.aliases.wf() && self.subs.wf()
    }

    /// An empty store: no rules, no aliases, no subscriptions.  Empty
    /// rule lists impose nothing, so this store allows everything
    /// except `shutdown`.
    pub fn new() -> (r: StarsData)
        ensures
            r@.cmdallow.len() == 0,
            r@.cmddeny.len() == 0,
            r@.aliases.len() == 0,
            r@.subs.len() == 0,
            r@.shutallow.len() == 0,
            r@.reconnecttable.len() == 0,
            r@.hostlist.len() == 0,
            r.wf(),
    {
        StarsData {
            cmdallow: Vec::new(),
            cmddeny: Vec::new(),
            aliases: AliasTable::new(),
            subs: SubTable::new(),
            shutallow: Vec::new(),
            reconnecttable: Vec::new(),
            hostlist: Vec::new(),
        }
    }
}

} // verus!
