use vstd::prelude::*;
use crate::config::Config;
use crate::domain::event::Event;
use crate::domain::order::Order;
use crate::infra::order::{other_id_pred, with_order_spec, without_order_spec};

verus! {

/// An event that names `order_name` runs `order` on the host `host`: the
/// order has that name, and it has no target or targets that host.
pub open spec fn runs_for(order: Order, order_name: Seq<char>, host: Seq<char>) -> bool {
    &&& order.name@ == order_name
    &&& match order.target {
        None => true,
        Some(t) => t@ == host,
    }
}

/// `runs_for` as a predicate on orders.
pub open spec fn runs_for_pred(order_name: Seq<char>, host: Seq<char>) -> spec_fn(Order) -> bool {
    |o: Order| runs_for(o, order_name, host)
}

/// The orders of `orders` that an event naming `order_name` runs on `host`,
/// in their order.
pub open spec fn orders_run_for(orders: Seq<Order>, order_name: Seq<char>, host: Seq<char>) -> Seq<
    Order,
> {
    orders.filter(runs_for_pred(order_name, host))
}

/// The orders that `event` asks this host (named in `config`) to run.
pub fn matching_orders(orders: Vec<Order>, event: &Event, config: &Config) -> (r: Vec<Order>)
    ensures
        r@ == orders_run_for(orders@, event.order_name@, config.name@),
{
    let ghost name = event.order_name@;
    let ghost host = config.name@;
    let ghost all = orders@;
    let mut r: Vec<Order> = Vec::new();
    for o in it: orders.into_iter()
        invariant
            it.seq() == all,
            r@ == orders_run_for(all.take(it.index() as int), name, host),
            name == event.order_name@,
            host == config.name@,
    {
        let ghost i = it.index() as int;
        proof {
            assert(all.take(i + 1) =~= all.take(i).push(o));
            all.take(i).lemma_filter_push(o, runs_for_pred(name, host));
        }
        let selected = o.name == event.order_name && match &o.target {
            None => true,
            Some(t) => *t == config.name,
        };
        if selected {
            r.push(o);
        }
    }
    assert(all.take(all.len() as int) =~= all);
    r
}

/// An order is run by an event exactly when it is among the orders and runs
/// for the event's name on this host; the selection keeps the orders' order.
pub proof fn law_matching_selects_exactly(orders: Seq<Order>, order_name: Seq<char>, host: Seq<char>)
    ensures
        forall|o: Order|
            #[trigger] orders_run_for(orders, order_name, host).contains(o) <==> (orders.contains(o)
                && runs_for(o, order_name, host)),
{
    let pred = runs_for_pred(order_name, host);
    assert forall|o: Order|
        #[trigger] orders_run_for(orders, order_name, host).contains(o) <==> (orders.contains(o)
            && runs_for(o, order_name, host)) by {
        if orders.contains(o) && runs_for(o, order_name, host) {
            let k = choose|k: int| 0 <= k < orders.len() && orders[k] == o;
            orders.lemma_filter_contains(pred, k);
        }
        if orders_run_for(orders, order_name, host).contains(o) {
            orders.lemma_filter_contains_rev(pred, o);
            let k = choose|k: int|
                0 <= k < orders.filter(pred).len() && orders.filter(pred)[k] == o;
            orders.lemma_filter_pred(pred, k);
        }
    }
}

/// A registered order is run by the events of its name on the hosts it
/// targets, after the orders registered before it; it changes nothing for
/// other events and other hosts.
pub proof fn law_registered_order_runs_for_its_event(
    orders: Seq<Order>,
    order: Order,
    order_name: Seq<char>,
    host: Seq<char>,
)
    ensures
        runs_for(order, order_name, host) ==> orders_run_for(
            with_order_spec(orders, order),
            order_name,
            host,
        ) == orders_run_for(orders, order_name, host).push(order),
        !runs_for(order, order_name, host) ==> orders_run_for(
            with_order_spec(orders, order),
            order_name,
            host,
        ) == orders_run_for(orders, order_name, host),
{
    orders.lemma_filter_push(order, runs_for_pred(order_name, host));
}

/// Once the orders of an identifier are removed, no event runs an order of
/// that identifier.
pub proof fn law_removed_order_never_runs(
    orders: Seq<Order>,
    id: Seq<char>,
    order_name: Seq<char>,
    host: Seq<char>,
)
    ensures
        forall|o: Order|
            #[trigger] orders_run_for(without_order_spec(orders, id), order_name, host).contains(o)
                ==> o.id@ != id,
{
    let kept = without_order_spec(orders, id);
    assert forall|o: Order|
        #[trigger] orders_run_for(kept, order_name, host).contains(o) implies o.id@ != id by {
        kept.lemma_filter_contains_rev(runs_for_pred(order_name, host), o);
        let k = choose|k: int| 0 <= k < kept.len() && kept[k] == o;
        orders.lemma_filter_pred(other_id_pred(id), k);
    }
}

/// The orders an event runs on a host, built order by order: none from no
/// orders; an order added at the end is run, after the others, exactly when
/// its name is the event's order name and it has no target or targets that
/// host, whatever else it holds.
pub proof fn law_matching_step_by_step(
    orders: Seq<Order>,
    order: Order,
    order_name: Seq<char>,
    host: Seq<char>,
)
    ensures
        orders_run_for(Seq::<Order>::empty(), order_name, host) == Seq::<Order>::empty(),
        orders_run_for(orders.push(order), order_name, host) == if order.name@ == order_name && (
        order.target is None || order.target->0@ == host) {
            orders_run_for(orders, order_name, host).push(order)
        } else {
            orders_run_for(orders, order_name, host)
        },
{
    reveal(Seq::filter);
    assert(Seq::<Order>::empty().filter(runs_for_pred(order_name, host)) =~= Seq::<Order>::empty());
    orders.lemma_filter_push(order, runs_for_pred(order_name, host));
}

/// Every order an event runs has the event's order name and either no target
/// or this host as target; every order of the list that has both is run.
pub proof fn law_selected_orders_are_named_and_targeted(
    orders: Seq<Order>,
    order_name: Seq<char>,
    host: Seq<char>,
)
    ensures
        forall|o: Order|
            #[trigger] orders_run_for(orders, order_name, host).contains(o) <==> (orders.contains(o)
                && o.name@ == order_name && (o.target is None || o.target->0@ == host)),
{
    law_matching_selects_exactly(orders, order_name, host);
}

} // verus!
