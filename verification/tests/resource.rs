use tachydom::async_signal::resource::Resource;
use tachydom::async_signal::AsyncState;
use tachydom::serialization::{
    round_trip, Miniserde, Rkyv, SerdeJson, SerdeLite, SerializableData, Serializer, Str,
    Unreadable, Unwritable,
};
use tachydom::shared_context::{SerializedDataId, SharedContext};

#[test]
fn starts_loading_without_a_shared_context() {
    let mut ctx: Option<SharedContext> = None;
    let mut resource: Resource<String> = Resource::new(&mut ctx, true).0;
    assert!(matches!(resource.get(), AsyncState::Loading));
    // whoever awaits sees nothing yet
    assert_eq!(resource.poll(), None);

    // the computation resolves: complete with exactly that value
    assert_eq!(resource.resolve("42".to_string(), &mut ctx), Ok(()));
    assert!(matches!(resource.get(), AsyncState::Complete(value) if value == "42"));
    assert_eq!(resource.poll(), Some(&"42".to_string()));
    assert!(ctx.is_none());
}

#[test]
fn ids_follow_the_order_of_construction() {
    let mut ctx = Some(SharedContext::new());
    let mut first: Resource<String> = Resource::new(&mut ctx, true).0;
    let mut second: Resource<bool> = Resource::new(&mut ctx, true).0;
    let mut third: Resource<String> = Resource::new(&mut ctx, true).0;
    assert_eq!(ctx.as_ref().unwrap().issued(), 3);
    for id in 0..3 {
        assert!(ctx.as_ref().unwrap().is_pending(SerializedDataId(id)));
    }

    // they resolve in another order: each value is written under the
    // number of its resource
    assert_eq!(third.resolve("c".to_string(), &mut ctx), Ok(()));
    assert_eq!(first.resolve("a".to_string(), &mut ctx), Ok(()));
    assert_eq!(second.resolve(true, &mut ctx), Ok(()));
    assert_eq!(ctx.as_ref().unwrap().issued(), 3);
    assert!(!ctx.as_ref().unwrap().is_pending(SerializedDataId(1)));
    let written = ctx.as_mut().unwrap().take_written();
    assert_eq!(
        written,
        vec![
            (SerializedDataId(2), "c".to_string()),
            (SerializedDataId(0), "a".to_string()),
            (SerializedDataId(1), "true".to_string()),
        ]
    );

    // a fourth resource takes the fourth number
    let _fourth: Resource<bool> = Resource::new(&mut ctx, true).0;
    assert_eq!(ctx.as_ref().unwrap().issued(), 4);
    assert!(ctx.as_ref().unwrap().is_pending(SerializedDataId(3)));
}

#[test]
fn the_client_reads_what_the_server_wrote() {
    // server
    let mut server = Some(SharedContext::new());
    let mut name: Resource<String> = Resource::new(&mut server, true).0;
    let mut flag: Resource<bool> = Resource::new(&mut server, true).0;
    flag.resolve(false, &mut server).unwrap();
    name.resolve("Ada".to_string(), &mut server).unwrap();
    let embedded = server.as_mut().unwrap().take_written();

    // client: made in the same order, the resources start complete
    let mut client = Some(SharedContext::with_embedded(embedded));
    let name: Resource<String> = Resource::new(&mut client, true).0;
    let flag: Resource<bool> = Resource::new(&mut client, true).0;
    assert_eq!(name.poll(), Some(&"Ada".to_string()));
    assert_eq!(flag.poll(), Some(&false));
}

#[test]
fn a_text_that_cannot_be_read_leaves_the_resource_loading() {
    let embedded = vec![(SerializedDataId(0), "maybe".to_string())];
    let mut client = Some(SharedContext::with_embedded(embedded));
    let (flag, unread): (Resource<bool>, _) = Resource::new(&mut client, true);
    assert!(matches!(flag.get(), AsyncState::Loading));
    assert_eq!(client.as_ref().unwrap().issued(), 1);
    // the reason comes with the resource, for whoever wants to report it
    assert_eq!(unread, Some(Unreadable));
}

#[test]
fn nothing_is_reported_where_nothing_failed_to_be_read() {
    let embedded = vec![(SerializedDataId(0), "true".to_string())];
    let mut client = Some(SharedContext::with_embedded(embedded));
    // a text that is read
    let (flag, unread): (Resource<bool>, _) = Resource::new(&mut client, true);
    assert_eq!(flag.poll(), Some(&true));
    assert_eq!(unread, None);
    // no text
    let (flag, unread): (Resource<bool>, _) = Resource::new(&mut client, true);
    assert!(matches!(flag.get(), AsyncState::Loading));
    assert_eq!(unread, None);
    // no context
    let (_, unread): (Resource<bool>, _) = Resource::new(&mut None, true);
    assert_eq!(unread, None);
    // a text that cannot be read, but no hydration
    let embedded = vec![(SerializedDataId(0), "maybe".to_string())];
    let mut client = Some(SharedContext::with_embedded(embedded));
    let (_, unread): (Resource<bool>, _) = Resource::new(&mut client, false);
    assert_eq!(unread, None);
}

#[test]
fn the_start_of_a_resource_comes_with_its_number_and_what_could_not_be_read() {
    let embedded = vec![
        (SerializedDataId(0), "12".to_string()),
        (SerializedDataId(1), "012".to_string()),
    ];
    let mut client = Some(SharedContext::with_embedded(embedded));
    let (state, id, unread) = Resource::<u64, Str>::initial_value(&mut client, true);
    assert!(matches!(state, AsyncState::Complete(12)));
    assert_eq!(id, Some(SerializedDataId(0)));
    assert_eq!(unread, None);
    let (state, id, unread) = Resource::<u64, Str>::initial_value(&mut client, true);
    assert!(matches!(state, AsyncState::Loading));
    assert_eq!(id, Some(SerializedDataId(1)));
    assert_eq!(unread, Some(Unreadable));
    // without hydration no number is taken
    let (state, id, unread) = Resource::<u64, Str>::initial_value(&mut client, false);
    assert!(matches!(state, AsyncState::Loading));
    assert_eq!(id, None);
    assert_eq!(unread, None);
    assert_eq!(client.as_ref().unwrap().issued(), 2);
}

#[test]
fn a_write_is_registered_under_the_number_held_or_under_the_next() {
    let mut ctx = SharedContext::new();
    let held = ctx.next_id();
    assert_eq!(held, SerializedDataId(0));
    // a number that is held already is not taken again
    assert_eq!(ctx.write_async(Some(held)), SerializedDataId(0));
    assert_eq!(ctx.issued(), 1);
    assert!(ctx.is_pending(SerializedDataId(0)));
    // without one the registration takes the next
    assert_eq!(ctx.write_async(None), SerializedDataId(1));
    assert_eq!(ctx.issued(), 2);
    assert!(ctx.is_pending(SerializedDataId(1)));
}

#[test]
fn what_is_written_is_read_back_as_the_same_value() {
    assert_eq!(round_trip::<String, Str>(&"a \"text\"".to_string()), Some("a \"text\"".to_string()));
    assert_eq!(round_trip::<String, Str>(&String::new()), Some(String::new()));
    assert_eq!(round_trip::<bool, Str>(&true), Some(true));
    assert_eq!(round_trip::<bool, Str>(&false), Some(false));
    assert_eq!(round_trip::<u64, Str>(&0), Some(0));
    assert_eq!(round_trip::<u64, Str>(&u64::MAX), Some(u64::MAX));
    // a value that cannot be written gives nothing to read
    assert_eq!(round_trip::<Tagged, SerdeJson>(&Tagged(7)), None);
    assert_eq!(round_trip::<Tagged, Miniserde>(&Tagged(7)), Some(Tagged(7)));
}

/// A value written with a mark in front of it, for every serializer but
/// the JSON one, which cannot write it.
#[derive(Debug, PartialEq)]
struct Tagged(u64);

fn write_tagged(value: &Tagged) -> Result<String, Unwritable> {
    Ok(format!("#{}", value.0))
}

fn read_tagged(data: &str) -> Result<Tagged, Unreadable> {
    match data.strip_prefix('#') {
        Some(digits) => match <u64 as SerializableData<Str>>::de(digits) {
            Ok(n) => Ok(Tagged(n)),
            Err(unreadable) => Err(unreadable),
        },
        None => Err(Unreadable),
    }
}

impl SerializableData<SerdeJson> for Tagged {
    type SerErr = Unwritable;
    type DeErr = Unreadable;

    fn ser(&self) -> Result<String, Unwritable> {
        Err(Unwritable)
    }

    fn de(data: &str) -> Result<Tagged, Unreadable> {
        read_tagged(data)
    }
}

impl SerializableData<Miniserde> for Tagged {
    type SerErr = Unwritable;
    type DeErr = Unreadable;

    fn ser(&self) -> Result<String, Unwritable> {
        write_tagged(self)
    }

    fn de(data: &str) -> Result<Tagged, Unreadable> {
        read_tagged(data)
    }
}

impl SerializableData<SerdeLite> for Tagged {
    type SerErr = Unwritable;
    type DeErr = Unreadable;

    fn ser(&self) -> Result<String, Unwritable> {
        write_tagged(self)
    }

    fn de(data: &str) -> Result<Tagged, Unreadable> {
        read_tagged(data)
    }
}

impl SerializableData<Rkyv> for Tagged {
    type SerErr = Unwritable;
    type DeErr = Unreadable;

    fn ser(&self) -> Result<String, Unwritable> {
        write_tagged(self)
    }

    fn de(data: &str) -> Result<Tagged, Unreadable> {
        read_tagged(data)
    }
}

fn carried<Ser: Serializer>(
    make: fn(&mut Option<SharedContext>, bool) -> (Resource<Tagged, Ser>, Option<Unreadable>),
) where
    Tagged: SerializableData<Ser, SerErr = Unwritable, DeErr = Unreadable>,
{
    // the server writes the value under the number of the resource
    let mut server = Some(SharedContext::new());
    let (mut resource, _) = make(&mut server, true);
    assert_eq!(resource.resolve(Tagged(7), &mut server), Ok(()));
    let written = server.as_mut().unwrap().take_written();
    assert_eq!(written, vec![(SerializedDataId(0), "#7".to_string())]);
    // the client starts complete with it
    let mut client = Some(SharedContext::with_embedded(written));
    let (resource, unread) = make(&mut client, true);
    assert_eq!(resource.poll(), Some(&Tagged(7)));
    assert_eq!(unread, None);
}

#[test]
fn every_serializer_carries_a_value_across() {
    carried::<Miniserde>(Resource::miniserde);
    carried::<SerdeLite>(Resource::serde_lite);
    carried::<Rkyv>(Resource::rkyv);
}

#[test]
fn a_value_that_cannot_be_written_stays_to_be_written() {
    let mut server = Some(SharedContext::new());
    let (mut resource, _): (Resource<Tagged, SerdeJson>, _) = Resource::serde(&mut server, true);
    assert_eq!(resource.resolve(Tagged(7), &mut server), Err(Unwritable));
    assert_eq!(resource.poll(), Some(&Tagged(7)));
    assert!(server.as_ref().unwrap().is_pending(SerializedDataId(0)));
    assert!(server.as_mut().unwrap().take_written().is_empty());
}

#[test]
fn starts_loading_without_hydration() {
    let embedded = vec![(SerializedDataId(0), "true".to_string())];
    let mut client = Some(SharedContext::with_embedded(embedded));
    let flag: Resource<bool> = Resource::new(&mut client, false).0;
    assert!(matches!(flag.get(), AsyncState::Loading));
    // the write of its value is still registered, under the next number
    assert_eq!(client.as_ref().unwrap().issued(), 1);
    assert!(client.as_ref().unwrap().is_pending(SerializedDataId(0)));
}

#[test]
fn refetching_keeps_the_value_but_holds_back_whoever_awaits() {
    let mut ctx: Option<SharedContext> = None;
    let mut resource: Resource<bool> = Resource::new(&mut ctx, true).0;
    resource.refetch();
    assert!(matches!(resource.get(), AsyncState::Loading));
    resource.resolve(true, &mut ctx).unwrap();
    resource.refetch();
    assert!(matches!(resource.get(), AsyncState::Reloading(true)));
    assert_eq!(resource.get().current_value(), Some(&true));
    assert!(resource.get().loading());
    assert_eq!(resource.poll(), None);
    resource.resolve(false, &mut ctx).unwrap();
    assert_eq!(resource.poll(), Some(&false));
    assert!(!resource.get().loading());
}

#[test]
fn the_plain_serializer_round_trips() {
    for value in [true, false] {
        let text = SerializableData::<Str>::ser(&value).unwrap();
        assert_eq!(<bool as SerializableData<Str>>::de(&text), Ok(value));
    }
    assert_eq!(SerializableData::<Str>::ser(&true).unwrap(), "true");
    assert_eq!(SerializableData::<Str>::ser(&false).unwrap(), "false");
    assert_eq!(<bool as SerializableData<Str>>::de("yes"), Err(Unreadable));
    for value in ["", "plain", "with \"quotes\" and\nlines"] {
        let text = SerializableData::<Str>::ser(&value.to_string()).unwrap();
        assert_eq!(text, value);
        assert_eq!(
            <String as SerializableData<Str>>::de(&text),
            Ok(value.to_string())
        );
    }
}

#[test]
fn shared_context_reads_the_first_text_under_a_number() {
    let ctx = SharedContext::with_embedded(vec![
        (SerializedDataId(1), "one".to_string()),
        (SerializedDataId(0), "zero".to_string()),
        (SerializedDataId(1), "other".to_string()),
    ]);
    assert_eq!(ctx.read_data(SerializedDataId(0)), Some("zero".to_string()));
    assert_eq!(ctx.read_data(SerializedDataId(1)), Some("one".to_string()));
    assert_eq!(ctx.read_data(SerializedDataId(2)), None);
}

#[test]
fn the_plain_serializer_writes_numbers_in_decimal() {
    for (value, text) in [
        (0u64, "0"),
        (7, "7"),
        (10, "10"),
        (1203, "1203"),
        (u64::MAX, "18446744073709551615"),
    ] {
        assert_eq!(SerializableData::<Str>::ser(&value).unwrap(), text);
        assert_eq!(<u64 as SerializableData<Str>>::de(text), Ok(value));
    }
    // what is no number in decimal digits, or too large, is not read
    for text in ["", "01", "00", "1a", "-1", "+1", " 1", "18446744073709551616", "99999999999999999999"] {
        assert_eq!(<u64 as SerializableData<Str>>::de(text), Err(Unreadable));
    }
}

#[test]
fn a_number_crosses_from_server_to_client() {
    let mut server = Some(SharedContext::new());
    let mut count: Resource<u64> = Resource::new(&mut server, true).0;
    count.resolve(42, &mut server).unwrap();
    let embedded = server.as_mut().unwrap().take_written();
    assert_eq!(embedded, vec![(SerializedDataId(0), "42".to_string())]);
    let mut client = Some(SharedContext::with_embedded(embedded));
    let count: Resource<u64> = Resource::new(&mut client, true).0;
    assert_eq!(count.poll(), Some(&42));
}

#[test]
fn a_resource_that_starts_complete_writes_the_value_it_started_with() {
    let embedded = vec![(SerializedDataId(0), "true".to_string())];
    let mut ctx = Some(SharedContext::with_embedded(embedded));
    let (mut flag, _): (Resource<bool>, _) = Resource::new(&mut ctx, true);
    let (mut other, _): (Resource<bool>, _) = Resource::new(&mut ctx, true);
    assert!(ctx.as_ref().unwrap().is_pending(SerializedDataId(0)));

    // the one that is loading has nothing to write yet
    assert_eq!(other.write_ready(&mut ctx), Ok(()));
    assert!(ctx.as_ref().unwrap().is_pending(SerializedDataId(1)));
    // the one that is complete writes, once
    assert_eq!(flag.write_ready(&mut ctx), Ok(()));
    assert!(!ctx.as_ref().unwrap().is_pending(SerializedDataId(0)));
    assert_eq!(flag.write_ready(&mut ctx), Ok(()));
    assert_eq!(flag.resolve(false, &mut ctx), Ok(()));
    assert_eq!(flag.poll(), Some(&false));
    assert_eq!(
        ctx.as_mut().unwrap().take_written(),
        vec![(SerializedDataId(0), "true".to_string())]
    );
}
