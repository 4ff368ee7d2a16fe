use vstd::prelude::*;
use crate::config::Config;
use crate::domain::order::Order;
use crate::json::{json_string, law_json_string_reads_back, read_string, to_json_string};

verus! {

/// One record of the orders channel, as the Beebotte read API returns it:
/// `data` holds the JSON text of the list of orders.
pub struct Payload {
    pub id: String,
    pub data: String,
    pub ts: u64,
}

/// Refusal of the orders channel.
#[derive(Debug, PartialEq, Eq, Structural)]
pub enum OrderChannelError {
    /// The channel holds no record.
    NoData,
}

/// HTTP method of a request to the REST API.
#[derive(Debug, PartialEq, Eq, Structural)]
pub enum Method {
    Get,
    Post,
}

/// A request to the Beebotte REST API, to be sent as it is.
pub struct ChannelRequest {
    pub method: Method,
    pub url: String,
    /// Header names and values, in the order they are set.
    pub headers: Vec<(String, String)>,
    pub body: Option<String>,
}

/// The list of orders of the service, kept in a Beebotte channel.
pub struct OrderRepositoryBeebotte {
    config: Config,
}

/// Index `i` holds the oldest record of `s`: no record has a smaller
/// timestamp, and every record before it has a larger one.
pub open spec fn is_oldest_index(s: Seq<Payload>, i: int) -> bool {
    &&& 0 <= i < s.len()
    &&& forall|j: int| 0 <= j < s.len() ==> s[i].ts <= #[trigger] s[j].ts
    &&& forall|j: int| 0 <= j < i ==> #[trigger] s[j].ts > s[i].ts
}

/// The list after `order` is registered: it comes last.
pub open spec fn with_order_spec(orders: Seq<Order>, order: Order) -> Seq<Order> {
    orders.push(order)
}

/// Keeps the orders whose identifier is not `id`.
pub open spec fn other_id_pred(id: Seq<char>) -> spec_fn(Order) -> bool {
    |o: Order| o.id@ != id
}

/// The list after the orders of identifier `id` are removed; the others keep
/// their order.
pub open spec fn without_order_spec(orders: Seq<Order>, id: Seq<char>) -> Seq<Order> {
    orders.filter(other_id_pred(id))
}

/// The JSON text of an update of record `id` to the data `data`:
/// `{"_id":<id>,"data":<data>}` with both values written as JSON strings.
pub open spec fn update_body_spec(id: Seq<char>, data: Seq<char>) -> Seq<char> {
    "{\"_id\":"@ + json_string(id) + ",\"data\":"@ + json_string(data) + "}"@
}

/// Reads back an update body: the record identifier and the data, when `t`
/// is `{"_id":<JSON string>,"data":<JSON string>}`.
pub open spec fn read_update_body(t: Seq<char>) -> Option<(Seq<char>, Seq<char>)> {
    let head = "{\"_id\":"@;
    let mid = ",\"data\":"@;
    if t.len() >= head.len() && t.take(head.len() as int) == head {
        match read_string(t.skip(head.len() as int)) {
            Some((id, r1)) => if r1.len() >= mid.len() && r1.take(mid.len() as int) == mid {
                match read_string(r1.skip(mid.len() as int)) {
                    Some((data, r2)) => if r2 == "}"@ {
                        Some((id, data))
                    } else {
                        None
                    },
                    None => None,
                }
            } else {
                None
            },
            None => None,
        }
    } else {
        None
    }
}

/// An update body reads back as the record identifier and the data it was
/// made from: it is an object of the two keys `_id` and `data`, whose values
/// are JSON strings that stand for them.
pub proof fn law_update_body_reads_back(id: Seq<char>, data: Seq<char>)
    ensures
        read_update_body(update_body_spec(id, data)) == Some((id, data)),
{
    let head = "{\"_id\":"@;
    let mid = ",\"data\":"@;
    let tail = "}"@;
    let t = update_body_spec(id, data);
    let r1 = mid + json_string(data) + tail;
    assert(t.take(head.len() as int) =~= head);
    assert(t.skip(head.len() as int) =~= json_string(id) + r1);
    law_json_string_reads_back(id, r1);
    assert(r1.take(mid.len() as int) =~= mid);
    assert(r1.skip(mid.len() as int) =~= json_string(data) + tail);
    law_json_string_reads_back(data, tail);
}

impl OrderChannelError {
    /// The text that reports the refusal.
    pub fn message(&self) -> (r: String)
        ensures
            r@ == "No data in orders channel"@,
    {
        String::from_str("No data in orders channel")
    }
}

impl OrderRepositoryBeebotte {
    pub closed spec fn spec_config(&self) -> Config {
        self.config
    }

    pub fn new(config: Config) -> (r: Self)
        ensures
            r.spec_config() == config,
    {
        OrderRepositoryBeebotte { config }
    }

    /// `<rest url>/<action>/<orders channel>`.
    fn channel_url(&self, action: &str) -> (r: String)
        ensures
            r@ == self.config.beebotte_rest_url@ + "/"@ + action@ + "/"@
                + self.config.beebotte_orders_channel@,
    {
        let mut url = self.config.beebotte_rest_url.clone();
        url.append("/");
        url.append(action);
        url.append("/");
        url.append(self.config.beebotte_orders_channel.as_str());
        url
    }

    /// The request that reads the records of the orders channel:
    /// `GET <rest url>/data/read/<orders channel>` with the channel token in
    /// `X-Auth-Token`.
    pub fn read_request(&self) -> (r: ChannelRequest)
        ensures
            r.method == Method::Get,
            r.url@ == self.spec_config().beebotte_rest_url@ + "/"@ + "data/read"@ + "/"@
                + self.spec_config().beebotte_orders_channel@,
            r.headers@.len() == 1,
            r.headers@[0].0@ == "X-Auth-Token"@,
            r.headers@[0].1@ == self.spec_config().beebotte_channel_token@,
            r.body is None,
    {
        let url = self.channel_url("data/read");
        let mut headers: Vec<(String, String)> = Vec::new();
        headers.push((String::from_str("X-Auth-Token"), self.config.beebotte_channel_token.clone()));
        ChannelRequest { method: Method::Get, url, headers, body: None }
    }

    /// The request that replaces the data of record `payload_id` by
    /// `orders_json`: `POST <rest url>/data/update/<orders channel>` with the
    /// channel token, a JSON content type and the update as body.
    pub fn update_request(&self, payload_id: &str, orders_json: &str) -> (r: ChannelRequest)
        ensures
            r.method == Method::Post,
            r.url@ == self.spec_config().beebotte_rest_url@ + "/"@ + "data/update"@ + "/"@
                + self.spec_config().beebotte_orders_channel@,
            r.headers@.len() == 2,
            r.headers@[0].0@ == "X-Auth-Token"@,
            r.headers@[0].1@ == self.spec_config().beebotte_channel_token@,
            r.headers@[1].0@ == "Content-Type"@,
            r.headers@[1].1@ == "application/json"@,
            r.body matches Some(b) && b@ == update_body_spec(payload_id@, orders_json@),
    {
        let url = self.channel_url("data/update");
        let mut headers: Vec<(String, String)> = Vec::new();
        headers.push((String::from_str("X-Auth-Token"), self.config.beebotte_channel_token.clone()));
        headers.push((String::from_str("Content-Type"), String::from_str("application/json")));
        let body = update_body(payload_id, orders_json);
        ChannelRequest { method: Method::Post, url, headers, body: Some(body) }
    }

    /// The oldest record of the channel, the one that holds the orders: the
    /// first record of the smallest timestamp.
    pub fn oldest_payload(payloads: Vec<Payload>) -> (r: Result<Payload, OrderChannelError>)
        ensures
            payloads@.len() == 0 <==> r is Err,
            r matches Err(e) ==> e == OrderChannelError::NoData,
            r matches Ok(p) ==> exists|i: int| is_oldest_index(payloads@, i) && p == payloads@[i],
    {
        let n = payloads.len();
        if n == 0 {
            return Err(OrderChannelError::NoData);
        }
        let mut best: usize = 0;
        let mut i: usize = 1;
        while i < n
            invariant
                n == payloads@.len(),
                1 <= i <= n,
                best < i,
                forall|j: int| 0 <= j < i ==> payloads@[best as int].ts <= #[trigger] payloads@[j].ts,
                forall|j: int| 0 <= j < best ==> #[trigger] payloads@[j].ts > payloads@[best as int].ts,
            decreases n - i,
        {
            if payloads[i].ts < payloads[best].ts {
                best = i;
            }
            i = i + 1;
        }
        let ghost all = payloads@;
        let mut payloads = payloads;
        let p = payloads.swap_remove(best);
        assert(is_oldest_index(all, best as int));
        Ok(p)
    }

    /// The list of orders with `order` registered.
    pub fn with_order(orders: Vec<Order>, order: Order) -> (r: Vec<Order>)
        ensures
            r@ == with_order_spec(orders@, order),
    {
        let mut orders = orders;
        orders.push(order);
        orders
    }

    /// The list of orders without those of identifier `id`.
    pub fn without_order(orders: Vec<Order>, id: &String) -> (r: Vec<Order>)
        ensures
            r@ == without_order_spec(orders@, id@),
    {
        let ghost all = orders@;
        let ghost key = id@;
        let mut r: Vec<Order> = Vec::new();
        for o in it: orders.into_iter()
            invariant
                it.seq() == all,
                key == id@,
                r@ == without_order_spec(all.take(it.index() as int), key),
        {
            let ghost i = it.index() as int;
            proof {
                assert(all.take(i + 1) =~= all.take(i).push(o));
                all.take(i).lemma_filter_push(o, other_id_pred(key));
            }
            if !(o.id == *id) {
                r.push(o);
            }
        }
        assert(all.take(all.len() as int) =~= all);
        r
    }
}

/// The body of an update of record `id` to `data`.
fn update_body(id: &str, data: &str) -> (r: String)
    ensures
        r@ == update_body_spec(id@, data@),
{
    let mut body = String::from_str("{\"_id\":");
    body.append(to_json_string(id).as_str());
    body.append(",\"data\":");
    body.append(to_json_string(data).as_str());
    body.append("}");
    body
}

/// A list of records has at most one oldest record, so the record that holds
/// the orders is determined by the list.
pub proof fn law_oldest_is_unique(s: Seq<Payload>, i: int, j: int)
    requires
        is_oldest_index(s, i),
        is_oldest_index(s, j),
    ensures
        i == j,
{
    if i < j {
        assert(s[i].ts > s[j].ts);
        assert(s[j].ts <= s[i].ts);
    } else if j < i {
        assert(s[j].ts > s[i].ts);
    }
}

/// Removing the orders of an identifier that no order had, right after
/// registering an order of that identifier, gives back the list as it was.
pub proof fn law_remove_undoes_add(orders: Seq<Order>, order: Order)
    requires
        forall|i: int| 0 <= i < orders.len() ==> (#[trigger] orders[i]).id@ != order.id@,
    ensures
        without_order_spec(with_order_spec(orders, order), order.id@) == orders,
{
    let pred = other_id_pred(order.id@);
    orders.lemma_filter_push(order, pred);
    lemma_filter_keeps_all(orders, pred);
}

/// A filter that every element passes keeps the sequence whole.
proof fn lemma_filter_keeps_all(s: Seq<Order>, pred: spec_fn(Order) -> bool)
    requires
        forall|i: int| 0 <= i < s.len() ==> pred(#[trigger] s[i]),
    ensures
        s.filter(pred) == s,
    decreases s.len(),
{
    if s.len() > 0 {
        let init = s.drop_last();
        lemma_filter_keeps_all(init, pred);
        init.lemma_filter_push(s.last(), pred);
        assert(init.push(s.last()) =~= s);
    }
}

/// After a removal no order of that identifier is left, and every order of
/// another identifier that was there is still there.
pub proof fn law_remove_removes_only_that_id(orders: Seq<Order>, id: Seq<char>)
    ensures
        forall|i: int|
            0 <= i < without_order_spec(orders, id).len() ==> (#[trigger] without_order_spec(
                orders,
                id,
            )[i]).id@ != id,
        forall|o: Order|
            o.id@ != id ==> (#[trigger] without_order_spec(orders, id).contains(o)
                <==> orders.contains(o)),
{
    let pred = other_id_pred(id);
    assert forall|i: int| 0 <= i < without_order_spec(orders, id).len() implies (
    #[trigger] without_order_spec(orders, id)[i]).id@ != id by {
        orders.lemma_filter_pred(pred, i);
    }
    assert forall|o: Order| o.id@ != id implies (#[trigger] without_order_spec(
        orders,
        id,
    ).contains(o) <==> orders.contains(o)) by {
        if orders.contains(o) {
            let k = choose|k: int| 0 <= k < orders.len() && orders[k] == o;
            orders.lemma_filter_contains(pred, k);
        }
        if without_order_spec(orders, id).contains(o) {
            orders.lemma_filter_contains_rev(pred, o);
        }
    }
}

/// Removing the orders of an identifier twice is removing them once.
pub proof fn law_remove_is_idempotent(orders: Seq<Order>, id: Seq<char>)
    ensures
        without_order_spec(without_order_spec(orders, id), id) == without_order_spec(orders, id),
{
    let once = without_order_spec(orders, id);
    assert forall|i: int| 0 <= i < once.len() implies other_id_pred(id)(#[trigger] once[i]) by {
        orders.lemma_filter_pred(other_id_pred(id), i);
    }
    lemma_filter_keeps_all(once, other_id_pred(id));
}

/// A registered order is the last of the list, after the orders that were
/// there.
pub proof fn law_add_appends(orders: Seq<Order>, order: Order)
    ensures
        with_order_spec(orders, order).len() == orders.len() + 1,
        with_order_spec(orders, order).last() == order,
        with_order_spec(orders, order).drop_last() == orders,
{
    assert(orders.push(order).drop_last() =~= orders);
}

/// The list after a removal, built order by order: empty from an empty
/// list; an order added at the end stays, after the others kept, exactly when
/// its identifier differs from the removed one.
pub proof fn law_remove_step_by_step(orders: Seq<Order>, order: Order, id: Seq<char>)
    ensures
        without_order_spec(Seq::<Order>::empty(), id) == Seq::<Order>::empty(),
        without_order_spec(orders.push(order), id) == if order.id@ != id {
            without_order_spec(orders, id).push(order)
        } else {
            without_order_spec(orders, id)
        },
{
    reveal(Seq::filter);
    assert(Seq::<Order>::empty().filter(other_id_pred(id)) =~= Seq::<Order>::empty());
    orders.lemma_filter_push(order, other_id_pred(id));
}

/// A removal keeps as many orders as the list has orders of another
/// identifier: the list's length less the number of orders of the removed one.
pub proof fn law_remove_keeps_count(orders: Seq<Order>, id: Seq<char>)
    ensures
        without_order_spec(orders, id).len() + orders.filter(|o: Order| o.id@ == id).len()
            == orders.len(),
    decreases orders.len(),
{
    reveal(Seq::filter);
    if orders.len() > 0 {
        let init = orders.drop_last();
        law_remove_keeps_count(init, id);
        assert(init.push(orders.last()) =~= orders);
        law_remove_step_by_step(init, orders.last(), id);
        init.lemma_filter_push(orders.last(), |o: Order| o.id@ == id);
    } else {
        assert(orders.filter(|o: Order| o.id@ == id) =~= Seq::<Order>::empty());
        assert(orders.filter(other_id_pred(id)) =~= Seq::<Order>::empty());
    }
}

/// Removing one identifier and registering an order of another commute.
pub proof fn law_remove_commutes_with_add(orders: Seq<Order>, order: Order, id: Seq<char>)
    requires
        order.id@ != id,
    ensures
        without_order_spec(with_order_spec(orders, order), id) == with_order_spec(
            without_order_spec(orders, id),
            order,
        ),
{
    law_remove_step_by_step(orders, order, id);
}

/// The record chosen as oldest has no record of a smaller timestamp, and no
/// record before it has the same timestamp.
pub proof fn law_oldest_is_first_minimum(s: Seq<Payload>, i: int)
    requires
        is_oldest_index(s, i),
    ensures
        0 <= i < s.len(),
        forall|j: int| 0 <= j < s.len() ==> !(#[trigger] s[j].ts < s[i].ts),
        forall|j: int| 0 <= j < s.len() && #[trigger] s[j].ts == s[i].ts ==> i <= j,
{
    assert forall|j: int| 0 <= j < s.len() && #[trigger] s[j].ts == s[i].ts implies i <= j by {
        if j < i {
            assert(s[j].ts > s[i].ts);
        }
    }
}

} // verus!
