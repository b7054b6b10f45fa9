# wifi_ap

Firmware for an ESP32-C3 board that opens a Wi-Fi access point, hands out
addresses by DHCP and serves a web page from which each GPIO pin can be read,
driven and switched between input and output.

- `src/` is the verified library: the application that serves requests from
  one list of pins (`web`), the route table and path lookup (`routes`), the
  pins' modes and what a request asks of a pin (`gpio`), the
  addresses, credentials and stack seed (`network`), the state machines that
  bring the interface up and keep it up (`connection`), and decimal numerals
  (`text`).
- `app/` is the firmware around it: hardware set-up, the network stack, the
  DHCP server, the HTTP server and the tasks that carry out the library's
  decisions.
- `tests/` runs the library on concrete values.
