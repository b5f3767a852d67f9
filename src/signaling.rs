use vstd::prelude::*;

use crate::model::strings_view;
use crate::session::lemma_filter_step;

verus! {

/// A member of a signaling room.
#[derive(Debug, Clone)]
pub struct Participant {
    pub id: String,
    pub name: String,
}

pub ghost struct MemberView {
    pub id: Seq<char>,
    pub name: Seq<char>,
}

impl View for Participant {
    type V = MemberView;

    open spec fn view(&self) -> MemberView {
        MemberView { id: self.id@, name: self.name@ }
    }
}

/// A signaling room and its members, in the order they joined.
#[derive(Debug, Clone)]
pub struct Room {
    pub id: String,
    pub participants: Vec<Participant>,
}

pub open spec fn members_view(v: Seq<Participant>) -> Seq<MemberView> {
    v.map_values(|p: Participant| p@)
}

/// The messages the relay receives and forwards.
#[derive(Debug, Clone)]
pub enum SignalMessage {
    Join { room_id: String, user_id: String, user_name: String },
    Leave { room_id: String, user_id: String },
    Offer { room_id: String, sender_id: String, receiver_id: String, sdp: String },
    Answer { room_id: String, sender_id: String, receiver_id: String, sdp: String },
    IceCandidate {
        room_id: String,
        sender_id: String,
        receiver_id: String,
        candidate: String,
        sdp_mid: String,
        sdp_m_line_index: u32,
    },
    Subtitle { room_id: String, sender_id: String, text: String, timestamp: u64 },
}

pub ghost enum SignalView {
    Join { room_id: Seq<char>, user_id: Seq<char>, user_name: Seq<char> },
    Leave { room_id: Seq<char>, user_id: Seq<char> },
    Offer { room_id: Seq<char>, sender_id: Seq<char>, receiver_id: Seq<char>, sdp: Seq<char> },
    Answer { room_id: Seq<char>, sender_id: Seq<char>, receiver_id: Seq<char>, sdp: Seq<char> },
    IceCandidate {
        room_id: Seq<char>,
        sender_id: Seq<char>,
        receiver_id: Seq<char>,
        candidate: Seq<char>,
        sdp_mid: Seq<char>,
        sdp_m_line_index: u32,
    },
    Subtitle { room_id: Seq<char>, sender_id: Seq<char>, text: Seq<char>, timestamp: u64 },
}

impl View for SignalMessage {
    type V = SignalView;

    open spec fn view(&self) -> SignalView {
        match self {
            SignalMessage::Join { room_id, user_id, user_name } => SignalView::Join {
                room_id: room_id@,
                user_id: user_id@,
                user_name: user_name@,
            },
            SignalMessage::Leave { room_id, user_id } => SignalView::Leave {
                room_id: room_id@,
                user_id: user_id@,
            },
            SignalMessage::Offer { room_id, sender_id, receiver_id, sdp } => SignalView::Offer {
                room_id: room_id@,
                sender_id: sender_id@,
                receiver_id: receiver_id@,
                sdp: sdp@,
            },
            SignalMessage::Answer { room_id, sender_id, receiver_id, sdp } => SignalView::Answer {
                room_id: room_id@,
                sender_id: sender_id@,
                receiver_id: receiver_id@,
                sdp: sdp@,
            },
            SignalMessage::IceCandidate {
                room_id,
                sender_id,
                receiver_id,
                candidate,
                sdp_mid,
                sdp_m_line_index,
            } => SignalView::IceCandidate {
                room_id: room_id@,
                sender_id: sender_id@,
                receiver_id: receiver_id@,
                candidate: candidate@,
                sdp_mid: sdp_mid@,
                sdp_m_line_index: *sdp_m_line_index,
            },
            SignalMessage::Subtitle { room_id, sender_id, text, timestamp } => SignalView::Subtitle {
                room_id: room_id@,
                sender_id: sender_id@,
                text: text@,
                timestamp: *timestamp,
            },
        }
    }
}

impl SignalMessage {
    /// A value with the same view as this one.
    pub fn duplicate(&self) -> (r: SignalMessage)
        ensures
            r@ == self@,
    {
        match self {
            SignalMessage::Join { room_id, user_id, user_name } => SignalMessage::Join {
                room_id: room_id.clone(),
                user_id: user_id.clone(),
                user_name: user_name.clone(),
            },
            SignalMessage::Leave { room_id, user_id } => SignalMessage::Leave {
                room_id: room_id.clone(),
                user_id: user_id.clone(),
            },
            SignalMessage::Offer { room_id, sender_id, receiver_id, sdp } => SignalMessage::Offer {
                room_id: room_id.clone(),
                sender_id: sender_id.clone(),
                receiver_id: receiver_id.clone(),
                sdp: sdp.clone(),
            },
            SignalMessage::Answer { room_id, sender_id, receiver_id, sdp } => SignalMessage::Answer {
                room_id: room_id.clone(),
                sender_id: sender_id.clone(),
                receiver_id: receiver_id.clone(),
                sdp: sdp.clone(),
            },
            SignalMessage::IceCandidate {
                room_id,
                sender_id,
                receiver_id,
                candidate,
                sdp_mid,
                sdp_m_line_index,
            } => SignalMessage::IceCandidate {
                room_id: room_id.clone(),
                sender_id: sender_id.clone(),
                receiver_id: receiver_id.clone(),
                candidate: candidate.clone(),
                sdp_mid: sdp_mid.clone(),
                sdp_m_line_index: *sdp_m_line_index,
            },
            SignalMessage::Subtitle { room_id, sender_id, text, timestamp } => SignalMessage::Subtitle {
                room_id: room_id.clone(),
                sender_id: sender_id.clone(),
                text: text.clone(),
                timestamp: *timestamp,
            },
        }
    }
}

/// A message to hand to the live connection `recipient`.
#[derive(Debug, Clone)]
pub struct Delivery {
    pub recipient: String,
    pub message: SignalMessage,
}

pub ghost struct DeliveryView {
    pub recipient: Seq<char>,
    pub message: SignalView,
}

impl View for Delivery {
    type V = DeliveryView;

    open spec fn view(&self) -> DeliveryView {
        DeliveryView { recipient: self.recipient@, message: self.message@ }
    }
}

pub open spec fn deliveries_view(v: Seq<Delivery>) -> Seq<DeliveryView> {
    v.map_values(|d: Delivery| d@)
}

/// The relay's state as seen from outside: the live connections, each room
/// with its members, and the rooms in the order they were opened.
pub ghost struct RelayView {
    pub live: Seq<Seq<char>>,
    pub rooms: Map<Seq<char>, Seq<MemberView>>,
    pub order: Seq<Seq<char>>,
}

/// Live connections and room membership of the signaling relay.
pub struct SignalingRelay {
    users: Vec<String>,
    rooms: Vec<Room>,
}

pub open spec fn room_ids(rs: Seq<Room>) -> Seq<Seq<char>> {
    rs.map_values(|r: Room| r.id@)
}

/// The rooms of a list, by identifier; where two share one the later wins.
pub open spec fn rooms_map(rs: Seq<Room>) -> Map<Seq<char>, Seq<MemberView>>
    decreases rs.len(),
{
    if rs.len() == 0 {
        Map::empty()
    } else {
        rooms_map(rs.drop_last()).insert(rs.last().id@, members_view(rs.last().participants@))
    }
}

impl View for SignalingRelay {
    type V = RelayView;

    closed spec fn view(&self) -> RelayView {
        RelayView {
            live: strings_view(self.users@),
            rooms: rooms_map(self.rooms@),
            order: room_ids(self.rooms@),
        }
    }
}

/// No two members of a room share an identifier.
pub open spec fn unique_members(ms: Seq<MemberView>) -> bool {
    forall|i: int, j: int|
        0 <= i < ms.len() && 0 <= j < ms.len() && i != j ==> ms[i].id != ms[j].id
}

/// What holds of the relay's view at all times: connections and rooms are
/// listed once, the listed rooms are exactly the open ones, and no open room
/// is empty.
pub open spec fn relay_wf(s: RelayView) -> bool {
    &&& s.live.no_duplicates()
    &&& s.order.no_duplicates()
    &&& forall|r: Seq<char>| s.rooms.contains_key(r) <==> #[trigger] s.order.contains(r)
    &&& forall|r: Seq<char>| #[trigger]
        s.rooms.contains_key(r) ==> s.rooms[r].len() > 0 && unique_members(s.rooms[r])
}

/// A point-to-point message: handed to `receiver` if its connection is
/// live, dropped otherwise.
pub open spec fn forwarded(live: Seq<Seq<char>>, receiver: Seq<char>, msg: SignalView) -> Seq<
    DeliveryView,
> {
    if live.contains(receiver) {
        seq![DeliveryView { recipient: receiver, message: msg }]
    } else {
        Seq::empty()
    }
}

/// `msg` for each member of `ms` but `skip` whose connection is live, in order.
pub open spec fn announced(
    ms: Seq<MemberView>,
    live: Seq<Seq<char>>,
    skip: Seq<char>,
    msg: SignalView,
) -> Seq<DeliveryView>
    decreases ms.len(),
{
    if ms.len() == 0 {
        Seq::empty()
    } else {
        let rest = announced(ms.drop_last(), live, skip, msg);
        let m = ms.last();
        if m.id != skip && live.contains(m.id) {
            rest.push(DeliveryView { recipient: m.id, message: msg })
        } else {
            rest
        }
    }
}

/// A `Join` to `newcomer` for each other member of `ms`, in order.
pub open spec fn introduced(ms: Seq<MemberView>, newcomer: Seq<char>, room: Seq<char>) -> Seq<
    DeliveryView,
>
    decreases ms.len(),
{
    if ms.len() == 0 {
        Seq::empty()
    } else {
        let rest = introduced(ms.drop_last(), newcomer, room);
        let m = ms.last();
        if m.id != newcomer {
            rest.push(
                DeliveryView {
                    recipient: newcomer,
                    message: SignalView::Join { room_id: room, user_id: m.id, user_name: m.name },
                },
            )
        } else {
            rest
        }
    }
}

/// The members of room `room`; none where it is not open.
pub open spec fn members_of(s: RelayView, room: Seq<char>) -> Seq<MemberView> {
    if s.rooms.contains_key(room) {
        s.rooms[room]
    } else {
        Seq::empty()
    }
}

/// Whether some member of `ms` has identifier `id`.
pub open spec fn has_member(ms: Seq<MemberView>, id: Seq<char>) -> bool {
    exists|i: int| 0 <= i < ms.len() && ms[i].id == id
}

/// The members after `m` joins: a member with the same identifier is
/// replaced in place, else `m` comes last.
pub open spec fn joined_members(ms: Seq<MemberView>, m: MemberView) -> Seq<MemberView> {
    if has_member(ms, m.id) {
        ms.update(choose|i: int| 0 <= i < ms.len() && ms[i].id == m.id, m)
    } else {
        ms.push(m)
    }
}

/// The relay after `user` joins room `room` under `name`; the room is opened
/// if it was not.
pub open spec fn after_join(s: RelayView, room: Seq<char>, user: Seq<char>, name: Seq<char>) -> RelayView {
    RelayView {
        rooms: s.rooms.insert(room, joined_members(members_of(s, room), MemberView { id: user, name })),
        order: if s.rooms.contains_key(room) {
            s.order
        } else {
            s.order.push(room)
        },
        ..s
    }
}

/// What a join sends: the new member announced to every other live member,
/// then, if the new member is live, one `Join` to it for each other member.
pub open spec fn join_deliveries(s: RelayView, room: Seq<char>, user: Seq<char>, name: Seq<char>) -> Seq<
    DeliveryView,
> {
    let ms = after_join(s, room, user, name).rooms[room];
    announced(ms, s.live, user, SignalView::Join { room_id: room, user_id: user, user_name: name })
        + if s.live.contains(user) {
        introduced(ms, user, room)
    } else {
        Seq::empty()
    }
}

/// The members after `user` leaves.
pub open spec fn left_members(ms: Seq<MemberView>, user: Seq<char>) -> Seq<MemberView> {
    if has_member(ms, user) {
        ms.remove(choose|i: int| 0 <= i < ms.len() && ms[i].id == user)
    } else {
        ms
    }
}

/// The relay after `user` leaves room `room`; a room left empty is closed.
pub open spec fn after_leave(s: RelayView, room: Seq<char>, user: Seq<char>) -> RelayView {
    if !s.rooms.contains_key(room) {
        s
    } else {
        let rest = left_members(s.rooms[room], user);
        if rest.len() == 0 {
            RelayView {
                rooms: s.rooms.remove(room),
                order: s.order.remove(s.order.index_of(room)),
                ..s
            }
        } else {
            RelayView { rooms: s.rooms.insert(room, rest), ..s }
        }
    }
}

/// What a leave sends: a `Leave` to every remaining live member.
pub open spec fn leave_deliveries(s: RelayView, room: Seq<char>, user: Seq<char>) -> Seq<DeliveryView> {
    if !s.rooms.contains_key(room) {
        Seq::empty()
    } else {
        announced(
            left_members(s.rooms[room], user),
            s.live,
            user,
            SignalView::Leave { room_id: room, user_id: user },
        )
    }
}

/// The live connections without `user`.
pub open spec fn live_without(live: Seq<Seq<char>>, user: Seq<char>) -> Seq<Seq<char>> {
    if live.contains(user) {
        live.remove(live.index_of(user))
    } else {
        live
    }
}

/// The relay after `user` leaves each room of `rooms`, in order.
pub open spec fn leave_all(s: RelayView, rooms: Seq<Seq<char>>, user: Seq<char>) -> RelayView
    decreases rooms.len(),
{
    if rooms.len() == 0 {
        s
    } else {
        after_leave(leave_all(s, rooms.drop_last(), user), rooms.last(), user)
    }
}

/// What `user` leaving each room of `rooms`, in order, sends.
pub open spec fn leave_all_deliveries(s: RelayView, rooms: Seq<Seq<char>>, user: Seq<char>) -> Seq<
    DeliveryView,
>
    decreases rooms.len(),
{
    if rooms.len() == 0 {
        Seq::empty()
    } else {
        leave_all_deliveries(s, rooms.drop_last(), user) + leave_deliveries(
            leave_all(s, rooms.drop_last(), user),
            rooms.last(),
            user,
        )
    }
}

pub open spec fn member_of(s: RelayView, user: Seq<char>) -> spec_fn(Seq<char>) -> bool {
    |r: Seq<char>| has_member(s.rooms[r], user)
}

/// The rooms that `user` is a member of, in the order they were opened.
pub open spec fn rooms_with(s: RelayView, user: Seq<char>) -> Seq<Seq<char>> {
    s.order.filter(member_of(s, user))
}

/// The relay once connection `user` is gone: it is no longer live, and it
/// has left every room it was in.
pub open spec fn after_disconnect(s: RelayView, user: Seq<char>) -> RelayView {
    leave_all(RelayView { live: live_without(s.live, user), ..s }, rooms_with(s, user), user)
}

/// What a disconnection sends: the leaves of every room the connection was in.
pub open spec fn disconnect_deliveries(s: RelayView, user: Seq<char>) -> Seq<DeliveryView> {
    leave_all_deliveries(
        RelayView { live: live_without(s.live, user), ..s },
        rooms_with(s, user),
        user,
    )
}

/// The relay's state and the deliveries after one inbound message.
pub open spec fn relay_step(s: RelayView, m: SignalView) -> (RelayView, Seq<DeliveryView>) {
    match m {
        SignalView::Join { room_id, user_id, user_name } => (
            after_join(s, room_id, user_id, user_name),
            join_deliveries(s, room_id, user_id, user_name),
        ),
        SignalView::Leave { room_id, user_id } => (
            after_leave(s, room_id, user_id),
            leave_deliveries(s, room_id, user_id),
        ),
        SignalView::Offer { receiver_id, .. } => (s, forwarded(s.live, receiver_id, m)),
        SignalView::Answer { receiver_id, .. } => (s, forwarded(s.live, receiver_id, m)),
        SignalView::IceCandidate { receiver_id, .. } => (s, forwarded(s.live, receiver_id, m)),
        SignalView::Subtitle { room_id, sender_id, .. } => (
            s,
            if s.rooms.contains_key(room_id) {
                announced(s.rooms[room_id], s.live, sender_id, m)
            } else {
                Seq::empty()
            },
        ),
    }
}

/// Two live connections join a room that is not open, one after the other:
/// the first join sends nothing, and the second sends exactly one `Join` to
/// the first member, about the second, and one to the second member, about
/// the first.
pub proof fn lemma_two_joins_introduce_each_other(
    s: RelayView,
    room: Seq<char>,
    a: Seq<char>,
    a_name: Seq<char>,
    b: Seq<char>,
    b_name: Seq<char>,
)
    requires
        relay_wf(s),
        !s.rooms.contains_key(room),
        s.live.contains(a),
        s.live.contains(b),
        a != b,
    ensures
        join_deliveries(s, room, a, a_name) == Seq::<DeliveryView>::empty(),
        join_deliveries(after_join(s, room, a, a_name), room, b, b_name) == seq![
            DeliveryView {
                recipient: a,
                message: SignalView::Join { room_id: room, user_id: b, user_name: b_name },
            },
            DeliveryView {
                recipient: b,
                message: SignalView::Join { room_id: room, user_id: a, user_name: a_name },
            },
        ],
{
    reveal_with_fuel(announced, 3);
    reveal_with_fuel(introduced, 3);
    let ma = MemberView { id: a, name: a_name };
    let mb = MemberView { id: b, name: b_name };
    let s1 = after_join(s, room, a, a_name);
    assert(!has_member(Seq::<MemberView>::empty(), a));
    assert(s1.rooms[room] == seq![ma]);
    let one = seq![ma];
    assert(one.drop_last() =~= Seq::<MemberView>::empty());
    assert(!has_member(one, b));
    let two = one.push(mb);
    assert(s1.rooms.insert(room, joined_members(members_of(s1, room), mb)) == after_join(
        s1,
        room,
        b,
        b_name,
    ).rooms);
    assert(after_join(s1, room, b, b_name).rooms[room] == two);
    assert(two.drop_last() =~= one);
    assert(join_deliveries(s, room, a, a_name) =~= Seq::<DeliveryView>::empty());
    assert(join_deliveries(s1, room, b, b_name) =~= seq![
        DeliveryView {
            recipient: a,
            message: SignalView::Join { room_id: room, user_id: b, user_name: b_name },
        },
        DeliveryView {
            recipient: b,
            message: SignalView::Join { room_id: room, user_id: a, user_name: a_name },
        },
    ]);
}

/// A point-to-point message to a receiver with no live connection is
/// dropped: nothing is sent and the relay is unchanged.
pub proof fn lemma_offer_to_absent_receiver_dropped(s: RelayView, m: SignalView)
    requires
        m is Offer,
        !s.live.contains(m->Offer_receiver_id),
    ensures
        relay_step(s, m) == (s, Seq::<DeliveryView>::empty()),
{
}

/// When the last member of a room leaves, the room is closed, and a later
/// join to the same room finds no prior member: the newcomer is its only
/// member and is told of no one.
pub proof fn lemma_last_leave_closes_room(
    s: RelayView,
    room: Seq<char>,
    user: Seq<char>,
    other: Seq<char>,
    other_name: Seq<char>,
)
    requires
        relay_wf(s),
        s.rooms.contains_key(room),
        s.rooms[room].len() == 1,
        s.rooms[room][0].id == user,
    ensures
        !after_leave(s, room, user).rooms.contains_key(room),
        after_join(after_leave(s, room, user), room, other, other_name).rooms[room] == seq![
            MemberView { id: other, name: other_name },
        ],
        join_deliveries(after_leave(s, room, user), room, other, other_name) == Seq::<
            DeliveryView,
        >::empty(),
{
    reveal_with_fuel(announced, 2);
    reveal_with_fuel(introduced, 2);
    let ms = s.rooms[room];
    assert(has_member(ms, user));
    let c = choose|i: int| 0 <= i < ms.len() && ms[i].id == user;
    assert(c == 0);
    assert(left_members(ms, user) =~= Seq::<MemberView>::empty());
    let s1 = after_leave(s, room, user);
    assert(!s1.rooms.contains_key(room));
    assert(!has_member(Seq::<MemberView>::empty(), other));
    let m = MemberView { id: other, name: other_name };
    assert(after_join(s1, room, other, other_name).rooms[room] =~= seq![m]);
    assert(seq![m].drop_last() =~= Seq::<MemberView>::empty());
    assert(join_deliveries(s1, room, other, other_name) =~= Seq::<DeliveryView>::empty());
}

proof fn lemma_rooms_map_lookup(rs: Seq<Room>, i: int)
    requires
        room_ids(rs).no_duplicates(),
        0 <= i < rs.len(),
    ensures
        rooms_map(rs).contains_key(rs[i].id@),
        rooms_map(rs)[rs[i].id@] == members_view(rs[i].participants@),
    decreases rs.len(),
{
    if i < rs.len() - 1 {
        let pre = rs.drop_last();
        assert(room_ids(pre) =~= room_ids(rs).drop_last());
        assert(room_ids(rs)[i] != room_ids(rs)[rs.len() - 1]);
        lemma_rooms_map_lookup(pre, i);
    }
}

proof fn lemma_rooms_map_dom(rs: Seq<Room>, id: Seq<char>)
    ensures
        rooms_map(rs).contains_key(id) <==> room_ids(rs).contains(id),
    decreases rs.len(),
{
    if rs.len() > 0 {
        let pre = rs.drop_last();
        assert(room_ids(pre) =~= room_ids(rs).drop_last());
        lemma_rooms_map_dom(pre, id);
        assert(room_ids(rs) =~= room_ids(pre).push(rs.last().id@));
        vstd::seq_lib::lemma_seq_contains_after_push(room_ids(pre), rs.last().id@, id);
    }
}

proof fn lemma_rooms_map_update(rs: Seq<Room>, i: int, r: Room)
    requires
        room_ids(rs).no_duplicates(),
        0 <= i < rs.len(),
        r.id@ == rs[i].id@,
    ensures
        rooms_map(rs.update(i, r)) == rooms_map(rs).insert(r.id@, members_view(r.participants@)),
    decreases rs.len(),
{
    let pre = rs.drop_last();
    let up = rs.update(i, r);
    if i == rs.len() - 1 {
        assert(up.drop_last() =~= pre);
        assert(rooms_map(up) =~= rooms_map(rs).insert(r.id@, members_view(r.participants@)));
    } else {
        assert(up.drop_last() =~= pre.update(i, r));
        assert(room_ids(pre) =~= room_ids(rs).drop_last());
        assert(room_ids(rs)[i] != room_ids(rs)[rs.len() - 1]);
        lemma_rooms_map_update(pre, i, r);
        assert(rooms_map(up) =~= rooms_map(rs).insert(r.id@, members_view(r.participants@)));
    }
}

proof fn lemma_rooms_map_remove(rs: Seq<Room>, i: int)
    requires
        room_ids(rs).no_duplicates(),
        0 <= i < rs.len(),
    ensures
        rooms_map(rs.remove(i)) == rooms_map(rs).remove(rs[i].id@),
    decreases rs.len(),
{
    let pre = rs.drop_last();
    let rm = rs.remove(i);
    assert(room_ids(pre) =~= room_ids(rs).drop_last());
    if i == rs.len() - 1 {
        assert(rm =~= pre);
        lemma_rooms_map_dom(pre, rs[i].id@);
        if room_ids(pre).contains(rs[i].id@) {
            let k = choose|k: int| 0 <= k < pre.len() && room_ids(pre)[k] == rs[i].id@;
            assert(room_ids(rs)[k] == room_ids(rs)[i]);
        }
        assert(rooms_map(rm) =~= rooms_map(rs).remove(rs[i].id@));
    } else {
        assert(rm.drop_last() =~= pre.remove(i));
        assert(rm.last() == rs.last());
        assert(room_ids(rs)[i] != room_ids(rs)[rs.len() - 1]);
        lemma_rooms_map_remove(pre, i);
        assert(rooms_map(rm) =~= rooms_map(rs).remove(rs[i].id@));
    }
}

/// The position of the member with identifier `id`, if any.
fn member_index(ms: &Vec<Participant>, id: &String) -> (r: Option<usize>)
    ensures
        r is None <==> !has_member(members_view(ms@), id@),
        r matches Some(j) ==> j < ms@.len() && ms@[j as int].id@ == id@,
{
    let mut i: usize = 0;
    while i < ms.len()
        invariant
            i <= ms@.len(),
            forall|j: int| 0 <= j < i ==> ms@[j].id@ != id@,
        decreases ms@.len() - i,
    {
        if ms[i].id == *id {
            proof {
                assert(members_view(ms@)[i as int].id == id@);
            }
            return Some(i);
        }
        i += 1;
    }
    proof {
        if has_member(members_view(ms@), id@) {
            let k = choose|k: int|
                0 <= k < members_view(ms@).len() && members_view(ms@)[k].id == id@;
            assert(ms@[k].id@ == id@);
        }
    }
    None
}

impl SignalingRelay {
    /// The relay's own invariant.
    pub closed spec fn wf(&self) -> bool {
        relay_wf(self@)
    }

    /// A relay with no connection and no room.
    pub fn new() -> (r: Self)
        ensures
            r.wf(),
            r@.live == Seq::<Seq<char>>::empty(),
            r@.rooms == Map::<Seq<char>, Seq<MemberView>>::empty(),
            r@.order == Seq::<Seq<char>>::empty(),
    {
        let r = SignalingRelay { users: Vec::new(), rooms: Vec::new() };
        proof {
            assert(r@.live =~= Seq::<Seq<char>>::empty());
            assert(r@.order =~= Seq::<Seq<char>>::empty());
        }
        r
    }

    /// Whether connection `id` is live.
    pub fn is_live(&self, id: &String) -> (r: bool)
        ensures
            r == self@.live.contains(id@),
    {
        let mut i: usize = 0;
        while i < self.users.len()
            invariant
                i <= self.users@.len(),
                forall|j: int| 0 <= j < i ==> self.users@[j]@ != id@,
            decreases self.users@.len() - i,
        {
            if self.users[i] == *id {
                proof {
                    assert(self@.live[i as int] == id@);
                }
                return true;
            }
            i += 1;
        }
        proof {
            if self@.live.contains(id@) {
                let k = choose|k: int| 0 <= k < self@.live.len() && self@.live[k] == id@;
                assert(self.users@[k]@ == id@);
            }
        }
        false
    }

    /// The position of room `room_id` among the open rooms.
    fn find_room(&self, room_id: &String) -> (r: Option<usize>)
        ensures
            r is None <==> !self@.order.contains(room_id@),
            r matches Some(i) ==> i < self.rooms@.len() && self.rooms@[i as int].id@ == room_id@,
    {
        let mut i: usize = 0;
        while i < self.rooms.len()
            invariant
                i <= self.rooms@.len(),
                forall|j: int| 0 <= j < i ==> self.rooms@[j].id@ != room_id@,
            decreases self.rooms@.len() - i,
        {
            if self.rooms[i].id == *room_id {
                proof {
                    assert(self@.order[i as int] == room_id@);
                }
                return Some(i);
            }
            i += 1;
        }
        proof {
            if self@.order.contains(room_id@) {
                let k = choose|k: int| 0 <= k < self@.order.len() && self@.order[k] == room_id@;
                assert(self.rooms@[k].id@ == room_id@);
            }
        }
        None
    }

    /// Hands `message` to `receiver` if its connection is live.
    fn forward(&self, receiver: &String, message: SignalMessage) -> (r: Vec<Delivery>)
        ensures
            deliveries_view(r@) == forwarded(self@.live, receiver@, message@),
    {
        let mut r: Vec<Delivery> = Vec::new();
        if self.is_live(receiver) {
            r.push(Delivery { recipient: receiver.clone(), message });
            proof {
                assert(deliveries_view(r@) =~= forwarded(self@.live, receiver@, message@));
            }
        } else {
            proof {
                assert(deliveries_view(r@) =~= forwarded(self@.live, receiver@, message@));
            }
        }
        r
    }

    /// Hands `message` to each member of `members` but `skip` whose connection is live.
    fn announce(&self, members: &Vec<Participant>, skip: &String, message: &SignalMessage) -> (r:
        Vec<Delivery>)
        ensures
            deliveries_view(r@) == announced(members_view(members@), self@.live, skip@, message@),
    {
        let ghost ms = members_view(members@);
        let mut r: Vec<Delivery> = Vec::new();
        let mut i: usize = 0;
        while i < members.len()
            invariant
                i <= members@.len(),
                ms == members_view(members@),
                deliveries_view(r@) == announced(ms.subrange(0, i as int), self@.live, skip@, message@),
            decreases members@.len() - i,
        {
            proof {
                assert(ms.subrange(0, i + 1).drop_last() =~= ms.subrange(0, i as int));
                assert(ms.subrange(0, i + 1).last() == members@[i as int]@);
            }
            let ghost before = r@;
            if !(members[i].id == *skip) && self.is_live(&members[i].id) {
                let d = Delivery { recipient: members[i].id.clone(), message: message.duplicate() };
                r.push(d);
                proof {
                    assert(deliveries_view(r@) =~= deliveries_view(before).push(d@));
                }
            }
            i += 1;
        }
        proof {
            assert(ms.subrange(0, i as int) =~= ms);
        }
        r
    }

    /// A `Join` to `newcomer` for each other member of `members`.
    fn introduce(members: &Vec<Participant>, newcomer: &String, room_id: &String) -> (r: Vec<
        Delivery,
    >)
        ensures
            deliveries_view(r@) == introduced(members_view(members@), newcomer@, room_id@),
    {
        let ghost ms = members_view(members@);
        let mut r: Vec<Delivery> = Vec::new();
        let mut i: usize = 0;
        while i < members.len()
            invariant
                i <= members@.len(),
                ms == members_view(members@),
                deliveries_view(r@) == introduced(ms.subrange(0, i as int), newcomer@, room_id@),
            decreases members@.len() - i,
        {
            proof {
                assert(ms.subrange(0, i + 1).drop_last() =~= ms.subrange(0, i as int));
                assert(ms.subrange(0, i + 1).last() == members@[i as int]@);
            }
            let ghost before = r@;
            if !(members[i].id == *newcomer) {
                let d = Delivery {
                    recipient: newcomer.clone(),
                    message: SignalMessage::Join {
                        room_id: room_id.clone(),
                        user_id: members[i].id.clone(),
                        user_name: members[i].name.clone(),
                    },
                };
                r.push(d);
                proof {
                    assert(deliveries_view(r@) =~= deliveries_view(before).push(d@));
                }
            }
            i += 1;
        }
        proof {
            assert(ms.subrange(0, i as int) =~= ms);
        }
        r
    }

    /// Relays an SDP offer to its receiver; dropped when the receiver has no
    /// live connection.
    pub fn handle_offer(&self, room_id: String, sender_id: String, receiver_id: String, sdp: String) -> (r:
        Vec<Delivery>)
        ensures
            deliveries_view(r@) == forwarded(
                self@.live,
                receiver_id@,
                SignalView::Offer {
                    room_id: room_id@,
                    sender_id: sender_id@,
                    receiver_id: receiver_id@,
                    sdp: sdp@,
                },
            ),
    {
        let receiver = receiver_id.clone();
        self.forward(&receiver, SignalMessage::Offer { room_id, sender_id, receiver_id, sdp })
    }

    /// Relays an SDP answer to its receiver; dropped when the receiver has no
    /// live connection.
    pub fn handle_answer(&self, room_id: String, sender_id: String, receiver_id: String, sdp: String) -> (r:
        Vec<Delivery>)
        ensures
            deliveries_view(r@) == forwarded(
                self@.live,
                receiver_id@,
                SignalView::Answer {
                    room_id: room_id@,
                    sender_id: sender_id@,
                    receiver_id: receiver_id@,
                    sdp: sdp@,
                },
            ),
    {
        let receiver = receiver_id.clone();
        self.forward(&receiver, SignalMessage::Answer { room_id, sender_id, receiver_id, sdp })
    }

    /// Relays an ICE candidate to its receiver; dropped when the receiver has
    /// no live connection.
    pub fn handle_ice_candidate(
        &self,
        room_id: String,
        sender_id: String,
        receiver_id: String,
        candidate: String,
        sdp_mid: String,
        sdp_m_line_index: u32,
    ) -> (r: Vec<Delivery>)
        ensures
            deliveries_view(r@) == forwarded(
                self@.live,
                receiver_id@,
                SignalView::IceCandidate {
                    room_id: room_id@,
                    sender_id: sender_id@,
                    receiver_id: receiver_id@,
                    candidate: candidate@,
                    sdp_mid: sdp_mid@,
                    sdp_m_line_index,
                },
            ),
    {
        let receiver = receiver_id.clone();
        self.forward(
            &receiver,
            SignalMessage::IceCandidate {
                room_id,
                sender_id,
                receiver_id,
                candidate,
                sdp_mid,
                sdp_m_line_index,
            },
        )
    }

    /// Relays a subtitle to every other member of its room.
    pub fn handle_subtitle(&self, room_id: String, sender_id: String, text: String, timestamp: u64) -> (r:
        Vec<Delivery>)
        requires
            self.wf(),
        ensures
            deliveries_view(r@) == if self@.rooms.contains_key(room_id@) {
                announced(
                    self@.rooms[room_id@],
                    self@.live,
                    sender_id@,
                    SignalView::Subtitle {
                        room_id: room_id@,
                        sender_id: sender_id@,
                        text: text@,
                        timestamp,
                    },
                )
            } else {
                Seq::empty()
            },
    {
        match self.find_room(&room_id) {
            None => {
                let r: Vec<Delivery> = Vec::new();
                proof {
                    assert(deliveries_view(r@) =~= Seq::<DeliveryView>::empty());
                }
                r
            },
            Some(i) => {
                proof {
                    lemma_rooms_map_lookup(self.rooms@, i as int);
                }
                let sender = sender_id.clone();
                let message = SignalMessage::Subtitle { room_id, sender_id, text, timestamp };
                self.announce(&self.rooms[i].participants, &sender, &message)
            },
        }
    }

    /// Handles a join: records `user_id` as a member of `room_id` (opening the
    /// room if needed) and returns the membership events to send.
    pub fn handle_join(&mut self, room_id: String, user_id: String, user_name: String) -> (r: Vec<
        Delivery,
    >)
        requires
            old(self).wf(),
        ensures
            final(self).wf(),
            final(self)@ == after_join(old(self)@, room_id@, user_id@, user_name@),
            deliveries_view(r@) == join_deliveries(old(self)@, room_id@, user_id@, user_name@),
    {
        let ghost s0 = self@;
        let ghost rooms0 = self.rooms@;
        let ghost m = MemberView { id: user_id@, name: user_name@ };
        let idx = self.find_room(&room_id);
        let mut room = match idx {
            Some(i) => {
                proof {
                    lemma_rooms_map_lookup(self.rooms@, i as int);
                }
                self.rooms.remove(i)
            },
            None => {
                proof {
                    lemma_rooms_map_dom(self.rooms@, room_id@);
                }
                Room { id: room_id.clone(), participants: Vec::new() }
            },
        };
        proof {
            assert(members_view(room.participants@) =~= members_of(s0, room_id@));
        }
        let member = Participant { id: user_id.clone(), name: user_name.clone() };
        let ghost ms0 = members_view(room.participants@);
        proof {
            if s0.rooms.contains_key(room_id@) {
                assert(unique_members(s0.rooms[room_id@]));
            }
            assert(unique_members(ms0));
        }
        let found = member_index(&room.participants, &user_id);
        match found {
            Some(j) => {
                room.participants.set(j, member);
                proof {
                    assert(ms0[j as int].id == m.id);
                    let c = choose|c: int| 0 <= c < ms0.len() && ms0[c].id == m.id;
                    assert(c == j);
                    assert(members_view(room.participants@) =~= ms0.update(j as int, m));
                }
            },
            None => {
                room.participants.push(member);
                proof {
                    assert(members_view(room.participants@) =~= ms0.push(m));
                }
            },
        }
        proof {
            assert(members_view(room.participants@) == joined_members(ms0, m));
            assert(unique_members(members_view(room.participants@)));
        }
        let pos = match idx {
            Some(i) => {
                self.rooms.insert(i, room);
                proof {
                    assert(self.rooms@ =~= rooms0.update(i as int, room));
                    assert(room_ids(self.rooms@) =~= room_ids(rooms0));
                    lemma_rooms_map_update(rooms0, i as int, room);
                }
                i
            },
            None => {
                self.rooms.push(room);
                proof {
                    assert(self.rooms@.drop_last() =~= rooms0);
                    assert(room_ids(self.rooms@) =~= room_ids(rooms0).push(room_id@));
                }
                self.rooms.len() - 1
            },
        };
        proof {
            assert(self@.rooms =~= after_join(s0, room_id@, user_id@, user_name@).rooms);
            assert forall|k: Seq<char>| self@.rooms.contains_key(k) <==> #[trigger] self@.order.contains(k) by {
                lemma_rooms_map_dom(self.rooms@, k);
            }
            lemma_rooms_map_lookup(self.rooms@, pos as int);
        }
        let message = SignalMessage::Join {
            room_id: room_id.clone(),
            user_id: user_id.clone(),
            user_name,
        };
        let mut r = self.announce(&self.rooms[pos].participants, &user_id, &message);
        let ghost first = r@;
        if self.is_live(&user_id) {
            let mut intro = Self::introduce(&self.rooms[pos].participants, &user_id, &room_id);
            let ghost second = intro@;
            r.append(&mut intro);
            proof {
                assert(deliveries_view(r@) =~= deliveries_view(first) + deliveries_view(second));
            }
        } else {
            proof {
                assert(deliveries_view(r@) =~= deliveries_view(first) + Seq::<DeliveryView>::empty());
            }
        }
        r
    }

    /// Handles a leave: `user_id` stops being a member of `room_id`, the
    /// remaining members are told, and a room left empty is closed.
    pub fn handle_leave(&mut self, room_id: String, user_id: String) -> (r: Vec<Delivery>)
        requires
            old(self).wf(),
        ensures
            final(self).wf(),
            final(self)@ == after_leave(old(self)@, room_id@, user_id@),
            deliveries_view(r@) == leave_deliveries(old(self)@, room_id@, user_id@),
    {
        let ghost s0 = self@;
        let ghost rooms0 = self.rooms@;
        match self.find_room(&room_id) {
            None => {
                let r: Vec<Delivery> = Vec::new();
                proof {
                    lemma_rooms_map_dom(self.rooms@, room_id@);
                    assert(deliveries_view(r@) =~= Seq::<DeliveryView>::empty());
                }
                r
            },
            Some(i) => {
                proof {
                    lemma_rooms_map_lookup(rooms0, i as int);
                    assert(unique_members(s0.rooms[room_id@]));
                }
                let mut room = self.rooms.remove(i);
                let ghost ms0 = members_view(room.participants@);
                match member_index(&room.participants, &user_id) {
                    Some(j) => {
                        room.participants.remove(j);
                        proof {
                            assert(ms0[j as int].id == user_id@);
                            let c = choose|c: int| 0 <= c < ms0.len() && ms0[c].id == user_id@;
                            assert(c == j);
                            assert(members_view(room.participants@) =~= ms0.remove(j as int));
                        }
                    },
                    None => {},
                }
                proof {
                    assert(members_view(room.participants@) == left_members(ms0, user_id@));
                    let rest = members_view(room.participants@);
                    assert(unique_members(rest)) by {
                        if has_member(ms0, user_id@) {
                            let c = choose|c: int| 0 <= c < ms0.len() && ms0[c].id == user_id@;
                            assert forall|a: int, b: int|
                                0 <= a < rest.len() && 0 <= b < rest.len() && a != b implies rest[a].id
                                != rest[b].id by {
                                let a0 = if a < c { a } else { a + 1 };
                                let b0 = if b < c { b } else { b + 1 };
                                assert(rest[a] == ms0[a0]);
                                assert(rest[b] == ms0[b0]);
                            }
                        }
                    }
                }
                let message = SignalMessage::Leave { room_id: room_id.clone(), user_id: user_id.clone() };
                let r = self.announce(&room.participants, &user_id, &message);
                if room.participants.len() == 0 {
                    proof {
                        lemma_rooms_map_remove(rooms0, i as int);
                        assert(room_ids(self.rooms@) =~= room_ids(rooms0).remove(i as int));
                        assert(s0.order[i as int] == room_id@);
                        assert(s0.order.index_of(room_id@) == i);
                        assert(self@.rooms == s0.rooms.remove(room_id@));
                        assert forall|k: Seq<char>| self@.rooms.contains_key(k) <==> #[trigger] self@.order.contains(k) by {
                            lemma_rooms_map_dom(self.rooms@, k);
                        }
                        assert(self@ == after_leave(s0, room_id@, user_id@));
                    }
                } else {
                    self.rooms.insert(i, room);
                    proof {
                        assert(self.rooms@ =~= rooms0.update(i as int, room));
                        assert(room_ids(self.rooms@) =~= room_ids(rooms0));
                        lemma_rooms_map_update(rooms0, i as int, room);
                        assert(self@.rooms =~= after_leave(s0, room_id@, user_id@).rooms);
                    }
                }
                r
            },
        }
    }

    /// The rooms that `user_id` is a member of, in the order they were opened.
    fn rooms_of(&self, user_id: &String) -> (r: Vec<String>)
        requires
            self.wf(),
        ensures
            strings_view(r@) == rooms_with(self@, user_id@),
    {
        let ghost order = self@.order;
        let ghost pred = member_of(self@, user_id@);
        let mut r: Vec<String> = Vec::new();
        let mut i: usize = 0;
        while i < self.rooms.len()
            invariant
                self.wf(),
                i <= self.rooms@.len(),
                order == self@.order,
                pred == member_of(self@, user_id@),
                strings_view(r@) == order.subrange(0, i as int).filter(pred),
            decreases self.rooms@.len() - i,
        {
            proof {
                lemma_filter_step(order, i as int, pred);
                lemma_rooms_map_lookup(self.rooms@, i as int);
                assert(order[i as int] == self.rooms@[i as int].id@);
            }
            let found = member_index(&self.rooms[i].participants, user_id);
            if found.is_some() {
                let ghost before = r@;
                r.push(self.rooms[i].id.clone());
                proof {
                    assert(strings_view(r@) =~= strings_view(before).push(order[i as int]));
                }
            }
            i += 1;
        }
        proof {
            assert(order.subrange(0, i as int) =~= order);
        }
        r
    }

    /// Handles the end of connection `user_id`: it stops being live, then
    /// leaves every room it was in, each leave told to the remaining members.
    pub fn handle_disconnect(&mut self, user_id: String) -> (r: Vec<Delivery>)
        requires
            old(self).wf(),
        ensures
            final(self).wf(),
            final(self)@ == after_disconnect(old(self)@, user_id@),
            deliveries_view(r@) == disconnect_deliveries(old(self)@, user_id@),
    {
        let ghost s0 = self@;
        let ghost users0 = self.users@;
        let mut k: usize = 0;
        let mut found = false;
        while k < self.users.len() && !found
            invariant
                self.users@ == users0,
                k <= users0.len(),
                found ==> k < users0.len() && users0[k as int]@ == user_id@,
                forall|j: int| 0 <= j < k ==> users0[j]@ != user_id@,
            decreases users0.len() - k, if found { 0int } else { 1int },
        {
            if self.users[k] == user_id {
                found = true;
            } else {
                k += 1;
            }
        }
        if found {
            self.users.remove(k);
            proof {
                assert(s0.live[k as int] == user_id@);
                assert(s0.live.index_of(user_id@) == k);
                assert(self@.live =~= s0.live.remove(k as int));
            }
        } else {
            proof {
                if s0.live.contains(user_id@) {
                    let c = choose|c: int| 0 <= c < s0.live.len() && s0.live[c] == user_id@;
                    assert(users0[c]@ == user_id@);
                }
            }
        }
        let ghost s1 = self@;
        proof {
            assert(s1 == RelayView { live: live_without(s0.live, user_id@), ..s0 });
            assert(self@.live.no_duplicates());
        }
        let rooms = self.rooms_of(&user_id);
        let ghost ids = strings_view(rooms@);
        proof {
            assert(rooms_with(s1, user_id@) == rooms_with(s0, user_id@));
        }
        let mut r: Vec<Delivery> = Vec::new();
        let mut i: usize = 0;
        while i < rooms.len()
            invariant
                self.wf(),
                i <= rooms@.len(),
                ids == strings_view(rooms@),
                self@ == leave_all(s1, ids.subrange(0, i as int), user_id@),
                deliveries_view(r@) == leave_all_deliveries(s1, ids.subrange(0, i as int), user_id@),
            decreases rooms@.len() - i,
        {
            proof {
                assert(ids.subrange(0, i + 1).drop_last() =~= ids.subrange(0, i as int));
                assert(ids.subrange(0, i + 1).last() == rooms@[i as int]@);
            }
            let ghost before = r@;
            let mut more = self.handle_leave(rooms[i].clone(), user_id.clone());
            let ghost added = more@;
            r.append(&mut more);
            proof {
                assert(deliveries_view(r@) =~= deliveries_view(before) + deliveries_view(added));
            }
            i += 1;
        }
        proof {
            assert(ids.subrange(0, i as int) =~= ids);
        }
        r
    }

    /// Handles one inbound message and returns the deliveries it causes.
    pub fn handle_message(&mut self, message: SignalMessage) -> (r: Vec<Delivery>)
        requires
            old(self).wf(),
        ensures
            final(self).wf(),
            (final(self)@, deliveries_view(r@)) == relay_step(old(self)@, message@),
    {
        match message {
            SignalMessage::Join { room_id, user_id, user_name } => self.handle_join(
                room_id,
                user_id,
                user_name,
            ),
            SignalMessage::Leave { room_id, user_id } => self.handle_leave(room_id, user_id),
            SignalMessage::Offer { room_id, sender_id, receiver_id, sdp } => self.handle_offer(
                room_id,
                sender_id,
                receiver_id,
                sdp,
            ),
            SignalMessage::Answer { room_id, sender_id, receiver_id, sdp } => self.handle_answer(
                room_id,
                sender_id,
                receiver_id,
                sdp,
            ),
            SignalMessage::IceCandidate {
                room_id,
                sender_id,
                receiver_id,
                candidate,
                sdp_mid,
                sdp_m_line_index,
            } => self.handle_ice_candidate(
                room_id,
                sender_id,
                receiver_id,
                candidate,
                sdp_mid,
                sdp_m_line_index,
            ),
            SignalMessage::Subtitle { room_id, sender_id, text, timestamp } => self.handle_subtitle(
                room_id,
                sender_id,
                text,
                timestamp,
            ),
        }
    }

    /// Registers live connection `id`.
    pub fn connect(&mut self, id: String)
        requires
            old(self).wf(),
        ensures
            final(self).wf(),
            final(self)@ == if old(self)@.live.contains(id@) {
                old(self)@
            } else {
                RelayView { live: old(self)@.live.push(id@), ..old(self)@ }
            },
    {
        if !self.is_live(&id) {
            let ghost before = self@;
            self.users.push(id);
            proof {
                assert(self@.live =~= before.live.push(id@));
                assert(self@.live.no_duplicates());
            }
        }
    }
}

} // verus!
