use dav_office_portal::dav::DavOp;
use dav_office_portal::metrics::DavOpLabels;

#[test]
fn placeholder() {
    assert_eq!(2 + 2, 4);
}

#[test]
fn operations_are_timed_under_their_names() {
    assert_eq!(DavOpLabels::of(DavOp::List).op, "list");
    assert_eq!(DavOpLabels::of(DavOp::Get).op, "get");
    assert_eq!(DavOpLabels::of(DavOp::Put).op, "put");
    assert_eq!(DavOpLabels::of(DavOp::Delete).op, "delete");
    assert_eq!(DavOpLabels::of(DavOp::Mkcol).op, "mkcol");
    assert_eq!(DavOpLabels::of(DavOp::Move).op, "move");
}
