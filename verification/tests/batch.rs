use sgp4::batch::{parse_2les, parse_3les};
use sgp4::lines::split_lines;
use sgp4::tle::{Error, ErrorLine, ErrorWhat};

#[test]
fn test_parse_2les() -> Result<(), Error> {
    let elements_vec = parse_2les(
        "1 25544U 98067A   20194.88612269 -.00002218  00000-0 -31515-4 0  9992\n\
         2 25544  51.6461 221.2784 0001413  89.1723 280.4612 15.49507896236008\n\
         1 42982U 98067NE  20194.06866787  .00008489  00000-0  72204-4 0  9997\n\
         2 42982  51.6338 155.6245 0002758 166.8841 193.2228 15.70564504154944\n",
    )?;
    assert_eq!(elements_vec.len(), 2);
    Ok(())
}

#[test]
fn test_parse_3les() -> Result<(), Error> {
    let elements_vec = parse_3les(
        "ISS (ZARYA)\n\
         1 25544U 98067A   20194.88612269 -.00002218  00000-0 -31515-4 0  9992\n\
         2 25544  51.6461 221.2784 0001413  89.1723 280.4612 15.49507896236008\n\
         KESTREL EYE IIM (KE2M)\n\
         1 42982U 98067NE  20194.06866787  .00008489  00000-0  72204-4 0  9997\n\
         2 42982  51.6338 155.6245 0002758 166.8841 193.2228 15.70564504154944\n",
    )?;
    assert_eq!(elements_vec.len(), 2);
    Ok(())
}

#[test]
fn element_sets_come_in_their_order_with_their_names() {
    let list = parse_3les(
        "ISS (ZARYA)\r\n\
         1 25544U 98067A   20194.88612269 -.00002218  00000-0 -31515-4 0  9992\r\n\
         2 25544  51.6461 221.2784 0001413  89.1723 280.4612 15.49507896236008\r\n\
         ÉTOILE \u{2003}\n\
         1 42982U 98067NE  20194.06866787  .00008489  00000-0  72204-4 0  9997\n\
         2 42982  51.6338 155.6245 0002758 166.8841 193.2228 15.70564504154944\n\
         LEFT OVER\n\
         1 42982U 98067NE  20194.06866787  .00008489  00000-0  72204-4 0  9997",
    )
    .unwrap();
    assert_eq!(list.len(), 2);
    assert_eq!(list[0].object_name.as_deref(), Some("ISS (ZARYA)"));
    assert_eq!(list[0].norad_id, 25544);
    assert_eq!(list[1].object_name.as_deref(), Some("ÉTOILE \u{2003}"));
    assert_eq!(list[1].norad_id, 42982);
    assert_eq!(list[1].international_designator.as_deref(), Some("1998-067NE"));
    let list = parse_2les(
        "1 25544U 98067A   20194.88612269 -.00002218  00000-0 -31515-4 0  9992\n\
         2 25544  51.6461 221.2784 0001413  89.1723 280.4612 15.49507896236008\n\
         1 42982U 98067NE  20194.06866787  .00008489  00000-0  72204-4 0  9997",
    )
    .unwrap();
    assert_eq!(list.len(), 1);
    assert!(list[0].object_name.is_none());
    assert_eq!(parse_2les("").unwrap().len(), 0);
    assert_eq!(parse_3les("\n\n").unwrap().len(), 0);
}

#[test]
fn the_first_wrong_element_set_gives_the_error() {
    let error = parse_2les(
        "1 25544U 98067A   20194.88612269 -.00002218  00000-0 -31515-4 0  9992\n\
         2 25544  51.6461 221.2784 0001413  89.1723 280.4612 15.49507896236008\n\
         1 42982U 98067NE  20194.06866787  .00008489  00000-0  72204-4 0  9990\n\
         2 42982  51.6338 155.6245 0002758 166.8841 193.2228 15.70564504154944\n\
         short\n\
         2 42982  51.6338 155.6245 0002758 166.8841 193.2228 15.70564504154944\n",
    )
    .err();
    assert_eq!(
        error,
        Some(Error { what: ErrorWhat::BadChecksum, line: ErrorLine::Line1, start: 68, end: 69 })
    );
    let error = parse_3les(
        "ISS (ZARYA)\n\
         1 25544U 98067A   20194.88612269 -.00002218  00000-0 -31515-4 0  9992\n\
         \n",
    )
    .err();
    assert_eq!(
        error,
        Some(Error { what: ErrorWhat::BadLength, line: ErrorLine::Line2, start: 0, end: 0 })
    );
    let error = parse_2les("1 25544U\r").err();
    assert_eq!(error, None);
    let error = parse_2les("1 25544U\r\n2").err();
    assert_eq!(
        error,
        Some(Error { what: ErrorWhat::BadLength, line: ErrorLine::Line1, start: 0, end: 8 })
    );
}

#[test]
fn lines_are_those_of_the_standard_library() {
    let texts = [
        "", "\n", "\n\n", "a", "a\n", "a\nb", "a\r\nb", "a\r\n", "a\r", "\r", "\r\n", "\r\r\n",
        "a\n\nb\n", "a\rb\nc", "\na", "é\r\nü\n\u{2003}", "a\r\r\nb\r",
    ];
    for text in texts {
        let expected: Vec<&[u8]> = text.lines().map(|line| line.as_bytes()).collect();
        assert_eq!(split_lines(text.as_bytes()), expected, "{:?}", text);
    }
}
