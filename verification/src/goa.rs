//! GNOME Online Accounts: which accounts expose a calendar, and which one to use.
use crate::order::{
    insert_by, insert_by_at, insert_by_split, insert_by_whole, is_total_preorder, ordered_by, sort_by,
    sort_by_sorts,
};
use crate::text::{owned, same_text, text_less, text_lt, text_order_is_strict_total};
use vstd::prelude::*;

verus! {

/// The D-Bus name of the accounts daemon.
pub const GOA_SERVICE: &'static str = "org.gnome.OnlineAccounts";

/// The object path under which the daemon lists its accounts.
pub const GOA_ROOT: &'static str = "/org/gnome/OnlineAccounts";

/// The interface that every account object has.
pub const IFACE_ACCOUNT: &'static str = "org.gnome.OnlineAccounts.Account";

/// The interface of accounts that expose a calendar.
pub const IFACE_CALENDAR: &'static str = "org.gnome.OnlineAccounts.Calendar";

/// The interface that hands out OAuth2 access tokens.
pub const IFACE_OAUTH2: &'static str = "org.gnome.OnlineAccounts.OAuth2Based";

/// An online account with a calendar.
#[derive(Clone, Debug)]
pub struct Account {
    pub path: String,
    pub identity: String,
    pub provider: String,
}

/// A property of an interface: its name, and its value where that is a string.
#[derive(Clone, Debug)]
pub struct Property {
    pub key: String,
    pub text: Option<String>,
}

/// An interface of an object with its properties (names are distinct, as in the map D-Bus
/// returns).
#[derive(Clone, Debug)]
pub struct Interface {
    pub name: String,
    pub props: Vec<Property>,
}

/// An object that the daemon manages, with its interfaces (names are distinct).
#[derive(Clone, Debug)]
pub struct ManagedObject {
    pub path: String,
    pub interfaces: Vec<Interface>,
}

/// An account by its texts: path, identity, provider.
pub type AccountView = (Seq<char>, Seq<char>, Seq<char>);

pub open spec fn account_view(a: Account) -> AccountView {
    (a.path@, a.identity@, a.provider@)
}

/// The first interface named `name`.
pub open spec fn find_interface(ifaces: Seq<Interface>, name: Seq<char>) -> Option<Interface>
    decreases ifaces.len(),
{
    if ifaces.len() == 0 {
        None
    } else if ifaces[0].name@ == name {
        Some(ifaces[0])
    } else {
        find_interface(ifaces.drop_first(), name)
    }
}

/// The string value of the property `key`; empty where it is missing or not a string.
pub open spec fn property_text(props: Seq<Property>, key: Seq<char>) -> Seq<char>
    decreases props.len(),
{
    if props.len() == 0 {
        Seq::empty()
    } else if props[0].key@ == key {
        match props[0].text {
            Some(t) => t@,
            None => Seq::empty(),
        }
    } else {
        property_text(props.drop_first(), key)
    }
}

/// The account that `obj` stands for: one that has the calendar interface and the account
/// interface, with its identity and provider read from the account interface.
pub open spec fn account_of(obj: ManagedObject) -> Option<AccountView> {
    if find_interface(obj.interfaces@, IFACE_CALENDAR@) is None {
        None
    } else {
        match find_interface(obj.interfaces@, IFACE_ACCOUNT@) {
            Some(acc) => Some(
                (
                    obj.path@,
                    property_text(acc.props@, "PresentationIdentity"@),
                    property_text(acc.props@, "ProviderType"@),
                ),
            ),
            None => None,
        }
    }
}

/// The accounts of `objs`, in their order.
pub open spec fn accounts_in(objs: Seq<ManagedObject>) -> Seq<AccountView>
    decreases objs.len(),
{
    if objs.len() == 0 {
        Seq::empty()
    } else {
        match account_of(objs.last()) {
            Some(a) => accounts_in(objs.drop_last()).push(a),
            None => accounts_in(objs.drop_last()),
        }
    }
}

/// Path order, not strict.
pub open spec fn path_le(a: AccountView, b: AccountView) -> bool {
    !text_lt(b.0, a.0)
}

/// Path order as a relation.
pub open spec fn path_order() -> spec_fn(AccountView, AccountView) -> bool {
    |a: AccountView, b: AccountView| path_le(a, b)
}

/// The accounts ordered by path; ties keep their order (a stable sort, as `sort_by` is).
pub open spec fn sort_accounts(s: Seq<AccountView>) -> Seq<AccountView> {
    sort_by(s, path_order())
}

/// Accounts ordered by path.
pub open spec fn in_path_order(s: Seq<AccountView>) -> bool {
    ordered_by(s, path_order())
}

fn interface_index(ifaces: &Vec<Interface>, name: &str) -> (r: Option<usize>)
    ensures
        match find_interface(ifaces@, name@) {
            Some(i) => r matches Some(k) && k < ifaces@.len() && ifaces@[k as int] == i,
            None => r is None,
        },
{
    let mut k: usize = 0;
    assert(ifaces@.skip(0) =~= ifaces@);
    while k < ifaces.len()
        invariant
            k <= ifaces@.len(),
            find_interface(ifaces@, name@) == find_interface(ifaces@.skip(k as int), name@),
        decreases ifaces@.len() - k,
    {
        let ghost rest = ifaces@.skip(k as int);
        assert(rest[0] == ifaces@[k as int]);
        if same_text(ifaces[k].name.as_str(), name) {
            return Some(k);
        }
        assert(rest.drop_first() =~= ifaces@.skip(k + 1));
        k = k + 1;
    }
    assert(ifaces@.skip(k as int) =~= Seq::<Interface>::empty());
    None
}

fn property_value(props: &Vec<Property>, key: &str) -> (r: String)
    ensures
        r@ == property_text(props@, key@),
{
    let mut k: usize = 0;
    assert(props@.skip(0) =~= props@);
    while k < props.len()
        invariant
            k <= props@.len(),
            property_text(props@, key@) == property_text(props@.skip(k as int), key@),
        decreases props@.len() - k,
    {
        let ghost rest = props@.skip(k as int);
        assert(rest[0] == props@[k as int]);
        if same_text(props[k].key.as_str(), key) {
            return match &props[k].text {
                Some(t) => t.clone(),
                None => String::new(),
            };
        }
        assert(rest.drop_first() =~= props@.skip(k + 1));
        k = k + 1;
    }
    assert(props@.skip(k as int) =~= Seq::<Property>::empty());
    String::new()
}

fn account_from(obj: &ManagedObject) -> (r: Option<Account>)
    ensures
        match account_of(*obj) {
            Some(v) => r matches Some(a) && account_view(a) == v,
            None => r is None,
        },
{
    if interface_index(&obj.interfaces, IFACE_CALENDAR).is_none() {
        return None;
    }
    match interface_index(&obj.interfaces, IFACE_ACCOUNT) {
        Some(k) => {
            let props = &obj.interfaces[k].props;
            Some(
                Account {
                    path: obj.path.clone(),
                    identity: property_value(props, "PresentationIdentity"),
                    provider: property_value(props, "ProviderType"),
                },
            )
        },
        None => None,
    }
}

fn insert_by_path(sorted: &mut Vec<Account>, a: Account)
    ensures
        final(sorted)@.map_values(|x: Account| account_view(x)) == insert_by(
            old(sorted)@.map_values(|x: Account| account_view(x)),
            account_view(a),
            path_order(),
        ),
{
    let ghost s = sorted@.map_values(|x: Account| account_view(x));
    let ghost e = account_view(a);
    let mut pos: usize = sorted.len();
    proof {
        insert_by_whole(s, e, path_order());
    }
    while pos > 0 && text_less(a.path.as_str(), sorted[pos - 1].path.as_str())
        invariant
            pos <= s.len(),
            s == sorted@.map_values(|x: Account| account_view(x)),
            e == account_view(a),
            insert_by(s, e, path_order()) == insert_by(s.take(pos as int), e, path_order())
                + s.skip(pos as int),
        decreases pos,
    {
        proof {
            assert(s[pos - 1] == account_view(sorted@[pos - 1]));
            insert_by_split(s, e, path_order(), pos as int);
        }
        pos = pos - 1;
    }
    proof {
        if pos > 0 {
            assert(s[pos - 1] == account_view(sorted@[pos - 1]));
        }
        insert_by_at(s, e, path_order(), pos as int);
    }
    sorted.insert(pos, a);
    assert(sorted@.map_values(|x: Account| account_view(x)) =~= s.insert(pos as int, e));
}

/// The accounts among the daemon's objects that expose a calendar, ordered by object path.
/// An account's identity and provider are the string properties `PresentationIdentity` and
/// `ProviderType` of its account interface, empty where missing.
pub fn calendar_accounts(objects: &Vec<ManagedObject>) -> (r: Vec<Account>)
    ensures
        r@.map_values(|x: Account| account_view(x)) == sort_accounts(accounts_in(objects@)),
{
    let mut out: Vec<Account> = Vec::new();
    let mut i: usize = 0;
    while i < objects.len()
        invariant
            i <= objects@.len(),
            out@.map_values(|x: Account| account_view(x)) == sort_accounts(
                accounts_in(objects@.take(i as int)),
            ),
        decreases objects@.len() - i,
    {
        proof {
            let t = objects@.take(i + 1);
            assert(t.drop_last() =~= objects@.take(i as int));
            assert(t.last() == objects@[i as int]);
        }
        let ghost prev = accounts_in(objects@.take(i as int));
        match account_from(&objects[i]) {
            Some(a) => {
                insert_by_path(&mut out, a);
                assert(prev.push(account_view(a)).drop_last() =~= prev);
                assert(sort_accounts(prev.push(account_view(a))) == insert_by(
                    sort_accounts(prev),
                    account_view(a),
                    path_order(),
                ));
            },
            None => {},
        }
        i = i + 1;
    }
    assert(objects@.take(i as int) =~= objects@);
    out
}

/// Law: path order orders every two accounts, and transitively.
pub proof fn path_order_is_total_preorder()
    ensures
        is_total_preorder(path_order()),
{
    assert forall|a: AccountView, b: AccountView| #[trigger] path_order()(a, b) || path_order()(b, a) by {
        text_order_is_strict_total(a.0, b.0, a.0);
    }
    assert forall|a: AccountView, b: AccountView, c: AccountView|
        #[trigger] path_order()(a, b) && #[trigger] path_order()(b, c) implies path_order()(a, c) by {
        text_order_is_strict_total(c.0, a.0, b.0);
        text_order_is_strict_total(a.0, b.0, c.0);
        text_order_is_strict_total(b.0, a.0, c.0);
    }
}

/// Law: ordering by path puts accounts in path order, and keeps every account, each as often
/// as it came (a permutation).
pub proof fn sort_accounts_sorts(s: Seq<AccountView>)
    ensures
        in_path_order(sort_accounts(s)),
        sort_accounts(s).to_multiset() == s.to_multiset(),
        sort_accounts(s).len() == s.len(),
{
    path_order_is_total_preorder();
    sort_by_sorts(s, path_order());
}

/// Law: accounts in path order whose paths differ (as the daemon's object paths do) are in
/// strictly increasing path order.
pub proof fn path_order_is_strict(s: Seq<AccountView>)
    requires
        in_path_order(s),
        forall|i: int, j: int| 0 <= i < j < s.len() ==> (#[trigger] s[i]).0 != (#[trigger] s[j]).0,
    ensures
        forall|i: int, j: int| 0 <= i < j < s.len() ==> text_lt((#[trigger] s[i]).0, (#[trigger] s[j]).0),
{
    assert forall|i: int, j: int| 0 <= i < j < s.len() implies text_lt(
        (#[trigger] s[i]).0,
        (#[trigger] s[j]).0,
    ) by {
        assert(path_le(s[i], s[j]));
        text_order_is_strict_total(s[i].0, s[j].0, s[i].0);
    }
}

/// Why no account could be picked.
#[derive(Clone, Debug)]
pub enum PickError {
    /// No calendar account has the path asked for.
    NotFound(String),
}

impl PickError {
    /// The error's message.
    pub fn message(&self) -> (s: String)
        ensures
            s@ == (match self {
                PickError::NotFound(p) => "no calendar account at "@ + p@,
            }),
    {
        match self {
            PickError::NotFound(p) => {
                let mut s = owned("no calendar account at ");
                s.append(p.as_str());
                s
            },
        }
    }
}

/// The index of the first account, from `from` on, whose path is `p`.
pub open spec fn index_of_path(accounts: Seq<Account>, p: Seq<char>, from: int) -> Option<int>
    decreases accounts.len() - from,
{
    if from < 0 || from >= accounts.len() {
        None
    } else if accounts[from].path@ == p {
        Some(from)
    } else {
        index_of_path(accounts, p, from + 1)
    }
}

/// The account that `pick_account` chooses: the one at `wanted` where a path is asked for;
/// otherwise the first account.
pub open spec fn picked(accounts: Seq<Account>, wanted: Option<Seq<char>>) -> Option<Account> {
    match wanted {
        Some(p) => match index_of_path(accounts, p, 0) {
            Some(i) => Some(accounts[i]),
            None => None,
        },
        None => if accounts.len() > 0 { Some(accounts[0]) } else { None },
    }
}

/// The text of an optional string.
pub open spec fn text_of(o: Option<String>) -> Option<Seq<char>> {
    match o {
        Some(s) => Some(s@),
        None => None,
    }
}

fn copy_account(a: &Account) -> (r: Account)
    ensures
        r == *a,
{
    Account { path: a.path.clone(), identity: a.identity.clone(), provider: a.provider.clone() }
}

/// Chooses the account to show: the one whose path is `wanted` when a path is given
/// (an error where none has it); otherwise the first account.
pub fn pick_account(accounts: &Vec<Account>, wanted: Option<String>) -> (r: Result<Account, PickError>)
    requires
        wanted is Some || accounts.len() > 0,
    ensures
        match picked(accounts@, text_of(wanted)) {
            Some(a) => r == Ok::<Account, PickError>(a),
            None => r matches Err(PickError::NotFound(p)) && wanted matches Some(w) && p@ == w@,
        },
{
    match wanted {
        Some(p) => {
            let mut i: usize = 0;
            while i < accounts.len()
                invariant
                    i <= accounts@.len(),
                    index_of_path(accounts@, p@, 0) == index_of_path(accounts@, p@, i as int),
                    text_of(wanted) == Some(p@),
                decreases accounts@.len() - i,
            {
                if same_text(accounts[i].path.as_str(), p.as_str()) {
                    return Ok(copy_account(&accounts[i]));
                }
                i = i + 1;
            }
            Err(PickError::NotFound(p))
        },
        None => {
            Ok(copy_account(&accounts[0]))
        },
    }
}

/// Law: an account picked by path has that path.
pub proof fn picked_has_wanted_path(accounts: Seq<Account>, p: Seq<char>)
    ensures
        picked(accounts, Some(p)) matches Some(a) ==> a.path@ == p,
{
    lemma_index_of_path(accounts, p, 0);
}

proof fn lemma_index_of_path(accounts: Seq<Account>, p: Seq<char>, from: int)
    ensures
        index_of_path(accounts, p, from) matches Some(i) ==> 0 <= i < accounts.len()
            && accounts[i].path@ == p,
    decreases accounts.len() - from,
{
    if 0 <= from < accounts.len() && accounts[from].path@ != p {
        lemma_index_of_path(accounts, p, from + 1);
    }
}

/// Law: with no path asked for, the first account is picked.
pub proof fn default_is_first(accounts: Seq<Account>)
    requires
        accounts.len() > 0,
    ensures
        picked(accounts, None) == Some(accounts[0]),
{
}

} // verus!
