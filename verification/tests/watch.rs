use std::cell::Cell;
use std::rc::Rc;

use windows_task::history::{
    anchor_holds, history_gap, page_of, Cursor, HistoryEvent, HistoryEventKind, HistoryQuery, Page, PAGE_SIZE,
};
use windows_task::{Error, ErrorKind};

struct Handle {
    event: HistoryEvent,
    live: Rc<Cell<usize>>,
}

impl Drop for Handle {
    fn drop(&mut self) {
        self.live.set(self.live.get() - 1);
    }
}

struct Source {
    events: Vec<HistoryEvent>,
    position: usize,
    live: Rc<Cell<usize>>,
    allocated: usize,
    parse_failure: Option<u64>,
    bookmark_failure: Option<u64>,
    seek_failure: Option<ErrorKind>,
}

fn event(record_id: u64) -> HistoryEvent {
    HistoryEvent {
        record_id,
        event_id: 102,
        kind: HistoryEventKind::Completed,
        timestamp: 0,
        task_path: None,
        instance_id: None,
        result_code: Some(0),
        fields: Vec::new(),
        message: None,
    }
}

impl Source {
    fn new(count: u64) -> Self {
        Self {
            events: (1..=count).map(event).collect(),
            position: 0,
            live: Rc::new(Cell::new(0)),
            allocated: 0,
            parse_failure: None,
            bookmark_failure: None,
            seek_failure: None,
        }
    }

    fn seek(&mut self, cursor: &Cursor) -> Result<(), Error> {
        if let Some(kind) = self.seek_failure {
            return Err(Error::new(kind, "injected seek failure"));
        }
        let id = cursor.bookmark.parse::<u64>().expect("bookmark supplied by source");
        self.position = self
            .events
            .iter()
            .position(|event| event.record_id == id)
            .ok_or_else(history_gap)?;
        Ok(())
    }

    fn next(&mut self, count: usize) -> Result<Vec<Handle>, Error> {
        let end = (self.position + count).min(self.events.len());
        let handles = self.events[self.position..end]
            .iter()
            .map(|event| {
                self.live.set(self.live.get() + 1);
                Handle { event: event.clone(), live: Rc::clone(&self.live) }
            })
            .collect();
        self.allocated += end - self.position;
        self.position = end;
        Ok(handles)
    }

    fn render(&self, handle: &Handle) -> Result<HistoryEvent, Error> {
        if self.parse_failure == Some(handle.event.record_id) {
            return Err(Error::new(ErrorKind::Serialization, "injected event parse failure"));
        }
        Ok(handle.event.clone())
    }

    fn bookmark(&self, handle: &Handle) -> Result<String, Error> {
        if self.bookmark_failure == Some(handle.event.record_id) {
            return Err(Error::new(ErrorKind::HistoryUnavailable, "injected bookmark failure"));
        }
        Ok(handle.event.record_id.to_string())
    }
}

/// Reads one page the way the scheduler client does: the anchor is checked,
/// then a whole batch is rendered and handed to the library's page logic.
fn read_page(source: &mut Source, query: &HistoryQuery, cursor: Option<Cursor>) -> Result<Page, Error> {
    if let Some(cursor) = &cursor {
        source.seek(cursor)?;
        let handles = source.next(1)?;
        let anchor = handles.first().ok_or_else(history_gap)?;
        let anchor = source.render(anchor)?;
        if !anchor_holds(cursor, &anchor) {
            return Err(history_gap());
        }
    }
    let handles = source.next(PAGE_SIZE)?;
    let fetched = handles.len();
    let mut rendered = Vec::with_capacity(fetched);
    for handle in handles {
        let event = source.render(&handle)?;
        let bookmark = source.bookmark(&handle)?;
        rendered.push((event, bookmark));
    }
    Ok(page_of(query, cursor, rendered, fetched))
}

fn all_events() -> HistoryQuery {
    HistoryQuery { task: None, instance_id: None, since: None, limit: None, forward: false }
}

#[test]
fn actual_page_algorithm_continues_without_duplicates_across_boundaries() {
    let mut source = Source::new(769);
    let query = HistoryQuery { limit: Some(1), ..all_events() };
    let mut cursor = None;
    let mut ids = Vec::new();
    loop {
        let page = read_page(&mut source, &query, cursor).expect("next page");
        cursor = page.cursor;
        ids.extend(page.events.iter().map(|event| event.record_id));
        assert_eq!(source.live.get(), 0);
        if !page.more {
            break;
        }
    }
    assert_eq!(ids, (1..=769).collect::<Vec<_>>());
    let empty = read_page(&mut source, &query, cursor).expect("stable end");
    assert!(empty.events.is_empty());
}

#[test]
fn parse_and_bookmark_failures_release_the_entire_native_style_batch() {
    for bookmark_failure in [false, true] {
        let mut source = Source::new(512);
        if bookmark_failure {
            source.bookmark_failure = Some(125);
        } else {
            source.parse_failure = Some(125);
        }
        let result = read_page(&mut source, &all_events(), None);
        assert!(result.is_err());
        assert_eq!(source.allocated, 256, "whole batch must be owned before parsing");
        assert_eq!(source.live.get(), 0, "including every unprocessed handle");
    }
}

#[test]
fn clear_retention_and_reused_record_ids_are_reported_as_gaps() {
    for reuse_ids in [false, true] {
        let mut source = Source::new(512);
        let cursor = read_page(&mut source, &all_events(), None).expect("first page").cursor;
        if reuse_ids {
            for event in &mut source.events {
                event.timestamp += 1_000_000_000;
            }
        } else {
            source.events.drain(..256);
        }
        let error = read_page(&mut source, &all_events(), cursor).err().expect("lost anchor");
        assert_eq!(error.kind(), ErrorKind::HistoryGap);
        assert_eq!(source.live.get(), 0);
    }
}

#[test]
fn failed_anchor_parse_and_access_denial_keep_their_classification() {
    for denied in [false, true] {
        let mut source = Source::new(512);
        let cursor = read_page(&mut source, &all_events(), None).expect("first page").cursor;
        if denied {
            source.seek_failure = Some(ErrorKind::AccessDenied);
        } else {
            source.parse_failure = Some(256);
        }
        let error = read_page(&mut source, &all_events(), cursor).err().expect("injected failure");
        assert_eq!(error.kind(), if denied { ErrorKind::AccessDenied } else { ErrorKind::Serialization });
        assert_eq!(source.live.get(), 0);
    }
}
