//! Advertisers, clients and users: the preparation of their registration
//! data and the reading of their identifiers.

use chrono::Datelike;
use vstd::prelude::*;
use vstd::string::StringExecFns;

use crate::error::ServiceError;

verus! {

/// What `chrono::NaiveDate::parse_from_str` gives for a text and a format:
/// the year, month and day of the date, or none when the text does not hold
/// a valid date in that format.
pub uninterp spec fn parsed_date(s: Seq<char>, format: Seq<char>) -> Option<(i32, u32, u32)>;

/// What `uuid::Uuid::parse_str` gives for a text: the identifier as a
/// 128-bit number, or none when the text is no identifier.
pub uninterp spec fn parsed_uuid(s: Seq<char>) -> Option<u128>;

/// Parses a calendar date.
///
/// Calls `chrono::NaiveDate::parse_from_str` and reads the year, month and
/// day of the date; the contract names the result, and claims what chrono
/// documents of a date's month (1 to 12) and day (1 to 31).
#[verifier::external_body]
fn parse_date(s: &str, format: &str) -> (r: Option<(i32, u32, u32)>)
    ensures
        r == parsed_date(s@, format@),
        r matches Some(d) ==> 1 <= d.1 <= 12 && 1 <= d.2 <= 31,
{
    match chrono::NaiveDate::parse_from_str(s, format) {
        Ok(d) => Some((d.year(), d.month(), d.day())),
        Err(_) => None,
    }
}

/// Parses an identifier.
///
/// Calls `uuid::Uuid::parse_str` and reads the identifier as a number; the
/// contract names the result.
#[verifier::external_body]
fn parse_uuid(s: &str) -> (r: Option<u128>)
    ensures
        r == parsed_uuid(s@),
{
    match uuid::Uuid::parse_str(s) {
        Ok(u) => Some(u.as_u128()),
        Err(_) => None,
    }
}

/// Reads a client identifier given as text; a text that is no identifier is
/// refused with the message `uuid not valid`.
pub fn parse_client_id(client_id: &str) -> (r: Result<u128, ServiceError>)
    ensures
        parsed_uuid(client_id@) matches Some(id) ==> r == Ok::<u128, ServiceError>(id),
        parsed_uuid(client_id@) is None ==> (r matches Err(ServiceError::Validation(m)) && m@
            == "uuid not valid"@),
{
    match parse_uuid(client_id) {
        Some(id) => Ok(id),
        None => Err(ServiceError::Validation(String::from_str("uuid not valid"))),
    }
}

/// The profile of an advertiser.
pub struct AdvertiserProfile {
    pub advertiser_id: u128,
    pub name: String,
}

/// The name last given to the advertiser `id` in `data`, if any.
pub open spec fn last_name(data: Seq<AdvertiserProfile>, id: u128) -> Option<Seq<char>>
    decreases data.len(),
{
    if data.len() == 0 {
        None
    } else if data.last().advertiser_id == id {
        Some(data.last().name@)
    } else {
        last_name(data.drop_last(), id)
    }
}

/// The advertisers to register: each identifier once, with the last name
/// given for it.
pub struct AdvertiserColumns {
    pub advertiser_ids: Vec<u128>,
    pub names: Vec<String>,
}

/// Whether `cols` registers exactly the advertisers of `data`, each once
/// and under its last name.
pub open spec fn registers_advertisers(data: Seq<AdvertiserProfile>, cols: AdvertiserColumns) -> bool {
    &&& cols.advertiser_ids.len() == cols.names.len()
    &&& forall|a: int, b: int|
        0 <= a < b < cols.advertiser_ids.len() ==> #[trigger] cols.advertiser_ids@[a]
            != #[trigger] cols.advertiser_ids@[b]
    &&& forall|k: int|
        0 <= k < cols.advertiser_ids.len() ==> last_name(data, #[trigger] cols.advertiser_ids@[k])
            == Some(cols.names@[k]@)
    &&& forall|j: int|
        0 <= j < data.len() ==> exists|k: int|
            0 <= k < cols.advertiser_ids.len() && #[trigger] cols.advertiser_ids@[k]
                == #[trigger] data[j].advertiser_id
}

proof fn lemma_last_name_step(data: Seq<AdvertiserProfile>, i: int, id: u128)
    requires
        0 <= i < data.len(),
    ensures
        last_name(data.take(i + 1), id) == if data[i].advertiser_id == id {
            Some(data[i].name@)
        } else {
            last_name(data.take(i), id)
        },
{
    assert(data.take(i + 1).drop_last() =~= data.take(i));
    assert(data.take(i + 1).last() == data[i]);
}

/// Position of the first profile of `data` with the identifier `id`.
pub open spec fn first_position(data: Seq<AdvertiserProfile>, id: u128) -> Option<int>
    decreases data.len(),
{
    if data.len() == 0 {
        None
    } else {
        match first_position(data.drop_last(), id) {
            Some(j) => Some(j),
            None => if data.last().advertiser_id == id {
                Some(data.len() - 1)
            } else {
                None
            },
        }
    }
}

/// Whether the identifiers `ids` all occur in `data` and come in the order
/// of their first occurrence there.
pub open spec fn in_first_appearance_order(data: Seq<AdvertiserProfile>, ids: Seq<u128>) -> bool {
    &&& forall|k: int| 0 <= k < ids.len() ==> #[trigger] first_position(data, ids[k]) is Some
    &&& forall|a: int, b: int|
        0 <= a < b < ids.len() ==> first_position(data, #[trigger] ids[a]).unwrap() < first_position(
            data,
            #[trigger] ids[b],
        ).unwrap()
}

proof fn lemma_first_position_step(data: Seq<AdvertiserProfile>, i: int, id: u128)
    requires
        0 <= i < data.len(),
    ensures
        first_position(data.take(i + 1), id) == match first_position(data.take(i), id) {
            Some(j) => Some(j),
            None => if data[i].advertiser_id == id {
                Some(i)
            } else {
                None
            },
        },
{
    assert(data.take(i + 1).drop_last() =~= data.take(i));
    assert(data.take(i + 1).last() == data[i]);
}

proof fn lemma_first_position_found(data: Seq<AdvertiserProfile>, id: u128)
    ensures
        first_position(data, id) matches Some(j) ==> 0 <= j < data.len() && data[j].advertiser_id == id,
    decreases data.len(),
{
    if data.len() > 0 {
        lemma_first_position_found(data.drop_last(), id);
    }
}

/// The service that registers advertisers.
pub struct AdvertiserService;

impl AdvertiserService {
    /// The advertisers to register: duplicates of an identifier collapse to
    /// one entry, which keeps the last name given; entries come in the order
    /// in which their identifiers first appear.
    pub fn unique_advertisers(&self, register_data: &Vec<AdvertiserProfile>) -> (r: AdvertiserColumns)
        ensures
            registers_advertisers(register_data@, r),
            in_first_appearance_order(register_data@, r.advertiser_ids@),
    {
        let mut ids: Vec<u128> = Vec::new();
        let mut names: Vec<String> = Vec::new();
        let mut i: usize = 0;
        while i < register_data.len()
            invariant
                i <= register_data.len(),
                registers_advertisers(
                    register_data@.take(i as int),
                    AdvertiserColumns { advertiser_ids: ids, names: names },
                ),
                in_first_appearance_order(register_data@.take(i as int), ids@),
            decreases register_data.len() - i,
        {
            let id = register_data[i].advertiser_id;
            proof {
                assert forall|x: u128| #[trigger] first_position(register_data@.take(i + 1), x) == match first_position(register_data@.take(i as int), x) {
                    Some(j) => Some(j),
                    None => if register_data@[i as int].advertiser_id == x {
                        Some(i as int)
                    } else {
                        None
                    },
                } by {
                    lemma_first_position_step(register_data@, i as int, x);
                }
                assert forall|x: u128| #[trigger] last_name(register_data@.take(i + 1), x) == if register_data@[i as int].advertiser_id == x {
                    Some(register_data@[i as int].name@)
                } else {
                    last_name(register_data@.take(i as int), x)
                } by {
                    lemma_last_name_step(register_data@, i as int, x);
                }
            }
            let mut p: usize = 0;
            while p < ids.len() && ids[p] != id
                invariant
                    p <= ids.len(),
                    forall|t: int| 0 <= t < p ==> #[trigger] ids@[t] != id,
                decreases ids.len() - p,
            {
                p = p + 1;
            }
            let ghost old_ids = ids@;
            let ghost old_names = names@;
            if p < ids.len() {
                names.set(p, register_data[i].name.clone());
                assert(names@[p as int]@ == register_data@[i as int].name@);
                assert forall|k: int| 0 <= k < ids.len() implies #[trigger] first_position(register_data@.take(i + 1), ids@[k])
                    == first_position(register_data@.take(i as int), ids@[k]) by {
                    assert(first_position(register_data@.take(i as int), ids@[k]) is Some);
                }
                assert forall|a: int, b: int| 0 <= a < b < ids.len() implies first_position(register_data@.take(i + 1), #[trigger] ids@[a]).unwrap()
                    < first_position(register_data@.take(i + 1), #[trigger] ids@[b]).unwrap() by {
                    assert(first_position(register_data@.take(i + 1), ids@[a]) == first_position(register_data@.take(i as int), ids@[a]));
                    assert(first_position(register_data@.take(i + 1), ids@[b]) == first_position(register_data@.take(i as int), ids@[b]));
                }
                assert forall|j: int| 0 <= j < i + 1 implies exists|k: int|
                    0 <= k < ids.len() && #[trigger] ids@[k] == #[trigger] register_data@.take(i + 1)[j].advertiser_id by {
                    if j < i {
                        assert(register_data@.take(i + 1)[j] == register_data@.take(i as int)[j]);
                    } else {
                        assert(ids@[p as int] == register_data@.take(i + 1)[j].advertiser_id);
                    }
                }
            } else {
                ids.push(id);
                names.push(register_data[i].name.clone());
                assert(names@[p as int]@ == register_data@[i as int].name@);
                proof {
                    if first_position(register_data@.take(i as int), id) is Some {
                        lemma_first_position_found(register_data@.take(i as int), id);
                        let j = first_position(register_data@.take(i as int), id).unwrap();
                        assert(register_data@.take(i as int)[j].advertiser_id == id);
                        let k = choose|k: int| 0 <= k < old_ids.len() && #[trigger] old_ids[k]
                            == #[trigger] register_data@.take(i as int)[j].advertiser_id;
                        assert(old_ids[k] != id);
                    }
                }
                assert(first_position(register_data@.take(i + 1), id) == Some(i as int));
                assert forall|k: int| 0 <= k < old_ids.len() implies #[trigger] first_position(register_data@.take(i + 1), old_ids[k])
                    == first_position(register_data@.take(i as int), old_ids[k])
                    && first_position(register_data@.take(i as int), old_ids[k]).unwrap() < i by {
                    assert(first_position(register_data@.take(i as int), old_ids[k]) is Some);
                    lemma_first_position_found(register_data@.take(i as int), old_ids[k]);
                }
                assert forall|k: int| 0 <= k < ids.len() implies #[trigger] first_position(register_data@.take(i + 1), ids@[k]) is Some by {
                    if k < p {
                        assert(ids@[k] == old_ids[k]);
                    }
                }
                assert forall|a: int, b: int| 0 <= a < b < ids.len() implies first_position(register_data@.take(i + 1), #[trigger] ids@[a]).unwrap()
                    < first_position(register_data@.take(i + 1), #[trigger] ids@[b]).unwrap() by {
                    assert(ids@[a] == old_ids[a]);
                    assert(first_position(register_data@.take(i + 1), old_ids[a]) == first_position(register_data@.take(i as int), old_ids[a]));
                    if b < p {
                        assert(ids@[b] == old_ids[b]);
                        assert(first_position(register_data@.take(i + 1), old_ids[b]) == first_position(register_data@.take(i as int), old_ids[b]));
                    }
                }
                assert forall|a: int, b: int| 0 <= a < b < ids.len() implies #[trigger] ids@[a] != #[trigger] ids@[b] by {
                    if b < p {
                        assert(old_ids[a] != old_ids[b]);
                    }
                }
                assert forall|k: int| 0 <= k < ids.len() implies last_name(register_data@.take(i + 1), #[trigger] ids@[k])
                    == Some(names@[k]@) by {
                    if k < p {
                        assert(ids@[k] == old_ids[k]);
                        assert(old_ids[k] != id);
                    }
                }
                assert forall|j: int| 0 <= j < i + 1 implies exists|k: int|
                    0 <= k < ids.len() && #[trigger] ids@[k] == #[trigger] register_data@.take(i + 1)[j].advertiser_id by {
                    if j < i {
                        assert(register_data@.take(i + 1)[j] == register_data@.take(i as int)[j]);
                        let k = choose|k: int| 0 <= k < old_ids.len() && #[trigger] old_ids[k]
                            == #[trigger] register_data@.take(i as int)[j].advertiser_id;
                        assert(ids@[k] == old_ids[k]);
                    } else {
                        assert(ids@[p as int] == register_data@.take(i + 1)[j].advertiser_id);
                    }
                }
            }
            i = i + 1;
        }
        assert(register_data@.take(register_data.len() as int) =~= register_data@);
        AdvertiserColumns { advertiser_ids: ids, names }
    }
}

} // verus!

verus! {

/// The profile of a client.
pub struct ClientProfile {
    pub client_id: u128,
    pub login: String,
    pub location: String,
    pub gender: String,
    pub age: u32,
}

/// The profiles of several clients, column by column, as they are stored.
pub struct ClientColumns {
    pub client_ids: Vec<u128>,
    pub logins: Vec<String>,
    pub locations: Vec<String>,
    pub genders: Vec<String>,
    pub ages: Vec<i32>,
}

/// The service that registers clients, with the pool it stores them in.
pub struct ClientService<'p, P> {
    pub db_pool: &'p P,
}

impl<'p, P> ClientService<'p, P> {
    /// A service that stores clients through `db_pool`.
    pub fn new(db_pool: &'p P) -> (s: Self)
        ensures
            s.db_pool == db_pool,
    {
        ClientService { db_pool }
    }

    /// The profiles split into columns, in the given order; ages are stored
    /// as `as i32` converts them.
    pub fn client_columns(&self, register_data: &Vec<ClientProfile>) -> (r: ClientColumns)
        ensures
            r.client_ids.len() == register_data.len(),
            r.logins.len() == register_data.len(),
            r.locations.len() == register_data.len(),
            r.genders.len() == register_data.len(),
            r.ages.len() == register_data.len(),
            forall|k: int|
                0 <= k < register_data.len() ==> {
                    &&& r.client_ids@[k] == (#[trigger] register_data@[k]).client_id
                    &&& r.logins@[k]@ == register_data@[k].login@
                    &&& r.locations@[k]@ == register_data@[k].location@
                    &&& r.genders@[k]@ == register_data@[k].gender@
                    &&& r.ages@[k] == register_data@[k].age as i32
                },
    {
        let mut cols = ClientColumns {
            client_ids: Vec::new(),
            logins: Vec::new(),
            locations: Vec::new(),
            genders: Vec::new(),
            ages: Vec::new(),
        };
        let mut i: usize = 0;
        while i < register_data.len()
            invariant
                i <= register_data.len(),
                cols.client_ids.len() == i,
                cols.logins.len() == i,
                cols.locations.len() == i,
                cols.genders.len() == i,
                cols.ages.len() == i,
                forall|k: int|
                    0 <= k < i ==> {
                        &&& cols.client_ids@[k] == (#[trigger] register_data@[k]).client_id
                        &&& cols.logins@[k]@ == register_data@[k].login@
                        &&& cols.locations@[k]@ == register_data@[k].location@
                        &&& cols.genders@[k]@ == register_data@[k].gender@
                        &&& cols.ages@[k] == register_data@[k].age as i32
                    },
            decreases register_data.len() - i,
        {
            let c = &register_data[i];
            cols.client_ids.push(c.client_id);
            cols.logins.push(c.login.clone());
            cols.locations.push(c.location.clone());
            cols.genders.push(c.gender.clone());
            cols.ages.push(c.age as i32);
            i = i + 1;
        }
        cols
    }
}

/// What is stored of a new user.
pub struct UserRegistration {
    pub telegram_id: i32,
    pub birth_day: (i32, u32, u32),
    pub city: String,
    pub country_code: String,
}

/// The format of birth days.
pub open spec fn birth_day_format() -> Seq<char> {
    "%Y-%m-%d"@
}

/// The service that registers users.
pub struct UserService;

impl UserService {
    /// Prepares a user's registration: the Telegram identifier is stored as
    /// `as i32` converts it, the birth day is read in the `%Y-%m-%d` format,
    /// and city and country code must be known. Any failure is an unknown
    /// error.
    pub fn prepare_registration(&self, telegram_id: usize, birth_day: &str, city: Option<String>, country_code: Option<String>) -> (r: Result<UserRegistration, ServiceError>)
        ensures
            r is Ok <==> (parsed_date(birth_day@, birth_day_format()) is Some && city is Some
                && country_code is Some),
            r matches Ok(u) ==> {
                &&& u.telegram_id == telegram_id as i32
                &&& Some(u.birth_day) == parsed_date(birth_day@, birth_day_format())
                &&& u.city@ == city.unwrap()@
                &&& u.country_code@ == country_code.unwrap()@
            },
            r matches Err(e) ==> e is Unknown,
    {
        let format = "%Y-%m-%d";
        proof {
            reveal_strlit("%Y-%m-%d");
        }
        let date = match parse_date(birth_day, format) {
            Some(d) => d,
            None => return Err(ServiceError::Unknown),
        };
        let city = match city {
            Some(c) => c,
            None => return Err(ServiceError::Unknown),
        };
        let country_code = match country_code {
            Some(c) => c,
            None => return Err(ServiceError::Unknown),
        };
        Ok(UserRegistration { telegram_id: telegram_id as i32, birth_day: date, city, country_code })
    }

    /// The key under which a user's existence is looked up: the Telegram
    /// identifier as `as i32` converts it.
    pub fn telegram_key(&self, telegram_id: usize) -> (r: i32)
        ensures
            r == telegram_id as i32,
    {
        telegram_id as i32
    }
}

} // verus!

verus! {

proof fn lemma_last_name_is_last_profile(data: Seq<AdvertiserProfile>, id: u128)
    ensures
        last_name(data, id) matches Some(n) ==> exists|j: int|
            0 <= j < data.len() && #[trigger] data[j].advertiser_id == id && data[j].name@ == n && forall|t: int|
                j < t < data.len() ==> #[trigger] data[t].advertiser_id != id,
        last_name(data, id) is None ==> forall|t: int| 0 <= t < data.len() ==> #[trigger] data[t].advertiser_id != id,
    decreases data.len(),
{
    if data.len() > 0 {
        lemma_last_name_is_last_profile(data.drop_last(), id);
        let last = data.len() - 1;
        assert(data.last() == data[last]);
        if data[last].advertiser_id == id {
            assert(data[last].advertiser_id == id);
        } else {
            assert forall|t: int| 0 <= t < data.len() - 1 implies #[trigger] data[t] == data.drop_last()[t] by {}
            if let Some(n) = last_name(data.drop_last(), id) {
                let j = choose|j: int|
                    0 <= j < data.drop_last().len() && #[trigger] data.drop_last()[j].advertiser_id == id
                        && data.drop_last()[j].name@ == n && forall|t: int|
                        j < t < data.drop_last().len() ==> #[trigger] data.drop_last()[t].advertiser_id != id;
                assert(data[j] == data.drop_last()[j]);
                assert forall|t: int| j < t < data.len() implies #[trigger] data[t].advertiser_id != id by {
                    if t < last {
                        assert(data[t] == data.drop_last()[t]);
                    }
                }
            } else {
                assert forall|t: int| 0 <= t < data.len() implies #[trigger] data[t].advertiser_id != id by {
                    if t < last {
                        assert(data[t] == data.drop_last()[t]);
                    }
                }
            }
        }
    }
}

/// Each advertiser given is registered exactly once, under the name of the
/// last profile given for its identifier.
pub proof fn law_each_advertiser_registered_once_under_last_name(data: Seq<AdvertiserProfile>, cols: AdvertiserColumns, j: int)
    requires
        registers_advertisers(data, cols),
        0 <= j < data.len(),
    ensures
        exists|k: int|
            0 <= k < cols.advertiser_ids.len() && #[trigger] cols.advertiser_ids@[k] == data[j].advertiser_id && forall|m: int|
                0 <= m < cols.advertiser_ids.len() && m != k ==> #[trigger] cols.advertiser_ids@[m] != data[j].advertiser_id,
        forall|k: int|
            0 <= k < cols.advertiser_ids.len() && #[trigger] cols.advertiser_ids@[k] == data[j].advertiser_id ==> exists|i: int|
                j <= i < data.len() && #[trigger] data[i].advertiser_id == data[j].advertiser_id && data[i].name@
                    == cols.names@[k]@ && forall|t: int| i < t < data.len() ==> #[trigger] data[t].advertiser_id
                    != data[j].advertiser_id,
{
    let id = data[j].advertiser_id;
    let k = choose|k: int| 0 <= k < cols.advertiser_ids.len() && #[trigger] cols.advertiser_ids@[k] == #[trigger] data[j].advertiser_id;
    assert forall|m: int| 0 <= m < cols.advertiser_ids.len() && m != k implies #[trigger] cols.advertiser_ids@[m] != id by {
        if m < k {
            assert(cols.advertiser_ids@[m] != cols.advertiser_ids@[k]);
        } else {
            assert(cols.advertiser_ids@[k] != cols.advertiser_ids@[m]);
        }
    }
    assert forall|k2: int| 0 <= k2 < cols.advertiser_ids.len() && #[trigger] cols.advertiser_ids@[k2] == id implies exists|i: int|
        j <= i < data.len() && #[trigger] data[i].advertiser_id == id && data[i].name@ == cols.names@[k2]@ && forall|t: int|
            i < t < data.len() ==> #[trigger] data[t].advertiser_id != id by {
        assert(last_name(data, cols.advertiser_ids@[k2]) == Some(cols.names@[k2]@));
        lemma_last_name_is_last_profile(data, id);
        let i = choose|i: int|
            0 <= i < data.len() && #[trigger] data[i].advertiser_id == id && data[i].name@ == cols.names@[k2]@ && forall|t: int|
                i < t < data.len() ==> #[trigger] data[t].advertiser_id != id;
        if i < j {
            assert(data[j].advertiser_id != id);
        }
    }
}

} // verus!
