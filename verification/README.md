# stk500v2

Host side of the STK500v2 protocol, by which a PC talks to AVR programmers over a serial line.

The library in `src/` is verified with Verus. It does no I/O: it makes the messages that have to
be sent, tells how much has to be read, and judges what came back. A `Dialogue` holds the requests
of one operation; whoever runs it sends the message that `next` gives, reads an answer and hands it
to `receive`, until nothing is left to be sent.

- `message`: frames, checksums; what was framed decodes to itself, one changed byte
  outside the length field is detected
- `sequence`: sequence numbers
- `command`, `param`, `status`, `board`: codes of the protocol
- `dialogue`: requests, answers, and the order in which they go
- `programmer`: sign on, parameters, entering programming mode
- `isp`, `pages`: reading memories, fuses, lock byte and signature; erasing; leaving
- `avr`, `port`: what is known of the chip and of the serial line
- `bytes`, `text`, `errors`: big endian numbers, numbers as text, errors

`app/` runs dialogues on a real serial port.
