use pedis_core::{DecodeError, RedisCommand};

#[test]
fn test_args() {
    let c = RedisCommand::new("*3\r\n$3\r\nSET\r\n$3\r\nkey\r\n$11\r\nHello World\r\n");
    assert_eq!(vec!["SET", "key", "Hello World"], c.params());
}

#[test]
fn test_name() {
    let c = RedisCommand::new("*3\r\n$3\r\nSET\r\n$3\r\nkey\r\n$11\r\nHello World\r\n");
    assert_eq!("set", c.name().unwrap());
}

#[test]
fn empty_frame_has_no_arguments_and_no_name() {
    let c = RedisCommand::new("");
    assert_eq!(Vec::<String>::new(), c.params());
    assert_eq!(Err(DecodeError::MalformedFrame), c.name());
}

#[test]
fn frame_of_zero_arguments_has_no_name() {
    let c = RedisCommand::new("*0\r\n");
    assert_eq!(Vec::<String>::new(), c.params());
    assert_eq!(Err(DecodeError::MalformedFrame), c.name());
}

#[test]
fn header_alone_has_no_name() {
    let c = RedisCommand::new("*1");
    assert_eq!(Vec::<String>::new(), c.params());
    assert_eq!(Err(DecodeError::MalformedFrame), c.name());
}

#[test]
fn length_line_without_payload_gives_no_argument() {
    let c = RedisCommand::new("*1\r\n$3");
    assert_eq!(Vec::<String>::new(), c.params());
    let c = RedisCommand::new("*1\r\n$3\r\n");
    assert_eq!(vec![""], c.params());
}

#[test]
fn last_payload_needs_no_closing_delimiter() {
    let c = RedisCommand::new("*1\r\n$4\r\nPING");
    assert_eq!(vec!["PING"], c.params());
    assert_eq!(Ok("ping".to_string()), c.name());
}

#[test]
fn one_argument_frame() {
    let c = RedisCommand::new("*1\r\n$4\r\nPING\r\n");
    assert_eq!(vec!["PING"], c.params());
    assert_eq!(Ok("ping".to_string()), c.name());
}

#[test]
fn arguments_keep_their_order_and_case() {
    let c = RedisCommand::new("*4\r\n$1\r\nb\r\n$1\r\nA\r\n$1\r\nc\r\n$1\r\nA\r\n");
    assert_eq!(vec!["b", "A", "c", "A"], c.params());
    assert_eq!(Ok("b".to_string()), c.name());
}

#[test]
fn declared_lengths_are_not_read() {
    let c = RedisCommand::new("*9\r\n$0\r\nGET\r\nabc\r\nsome key\r\n");
    assert_eq!(vec!["GET", "some key"], c.params());
    assert_eq!(Ok("get".to_string()), c.name());
}

#[test]
fn empty_payload_is_an_argument() {
    let c = RedisCommand::new("*2\r\n$3\r\nGET\r\n$0\r\n\r\n");
    assert_eq!(vec!["GET", ""], c.params());
}

#[test]
fn lone_carriage_return_and_line_feed_do_not_split() {
    let c = RedisCommand::new("*2\r\n$3\r\nS\rT\r\n$3\r\na\nb\r\n");
    assert_eq!(vec!["S\rT", "a\nb"], c.params());
    let c = RedisCommand::new("*1\r\n$2\r\nx\r\r\n");
    assert_eq!(vec!["x\r"], c.params());
}

#[test]
fn delimiter_inside_a_payload_splits_it() {
    let c = RedisCommand::new("*2\r\n$3\r\nSET\r\n$4\r\na\r\nb\r\n");
    assert_eq!(vec!["SET", "a", ""], c.params());
}

#[test]
fn payloads_beyond_ascii() {
    let c = RedisCommand::new("*2\r\n$5\r\nÉCHO\r\n$6\r\nnaïve…\r\n");
    assert_eq!(vec!["ÉCHO", "naïve…"], c.params());
    assert_eq!(Ok("écho".to_string()), c.name());
}

#[test]
fn name_is_lower_case_of_first_argument() {
    let c = RedisCommand::new("*1\r\n$6\r\nHgEtAlL\r\n");
    assert_eq!(Ok("hgetall".to_string()), c.name());
    assert_eq!(c.params()[0].to_lowercase(), c.name().unwrap());
}

#[test]
fn decoding_twice_gives_the_same() {
    let c = RedisCommand::new("*2\r\n$3\r\nGET\r\n$3\r\nkey\r\n");
    assert_eq!(c.params(), c.params());
    assert_eq!(c.name(), c.name());
    let d = c;
    assert_eq!(c.params(), d.params());
}
